//! The screenplay assistant panel: its state, what each button does to it,
//! and how it takes the answers of the worker that talks to the language
//! model. The worker itself (threads, network, the live session handle)
//! stays with the application, which runs each request these steps hand it.
//!
//! A session's answers and prompts are kept as they come (`A`, `P`): the
//! panel only clears them.

use vstd::prelude::*;
use crate::chat::{log_view, pushed_log, screenplay_push_log, ChatRole};
use crate::board::Storyboard;
use crate::draft::ScreenplayDraft;
use crate::draft_cards::{applied_log, is_draft_card_content};
use crate::ids::uuid_text;
use crate::screenplay::{
    provider_label, screenplay_provider_base, settled_model, ensure_screenplay_model, model_options, ProviderKind,
    ScreenplayQuestion,
};
use crate::text::{cat, cat3, trim, trim_vec, chars_of, string_of};

verus! {

/// The tabs of the panel.
#[derive(Clone, Copy, Debug, PartialEq, Eq, Structural)]
pub enum ScreenplayTab {
    Conversation,
    Draft,
}

/// A message of a screenplay session.
#[derive(Debug)]
pub struct ScreenplayMessage {
    pub id: String,
    pub role: ChatRole,
    pub text: String,
    pub created_at_ms: Option<i64>,
}

/// A screenplay session as the panel holds it.
pub struct ScreenplaySession<A, P> {
    pub id: String,
    pub project_id: Option<String>,
    pub created_at_ms: Option<i64>,
    pub updated_at_ms: Option<i64>,
    pub completed: bool,
    pub question_index: usize,
    pub answers: Vec<A>,
    pub messages: Vec<ScreenplayMessage>,
    pub screenplay: Option<ScreenplayDraft>,
    pub prompts: Option<P>,
}

/// What the worker reports back.
pub enum ScreenplayEvent<A, P> {
    /// A session was opened: the session, its questions, and whether a live
    /// handle came with it.
    SessionStarted(Result<(ScreenplaySession<A, P>, Vec<ScreenplayQuestion>, bool), String>),
    MessagePosted(Result<(ScreenplaySession<A, P>, Vec<ScreenplayQuestion>), String>),
    ScreenplayGenerated(Result<ScreenplayDraft, String>),
    RevisionApplied(Result<ScreenplayDraft, String>),
}

/// The state of the screenplay panel.
pub struct ScreenplayPanel<A, P> {
    pub show_panel: bool,
    pub active_tab: ScreenplayTab,
    pub session: Option<ScreenplaySession<A, P>>,
    pub questions: Vec<ScreenplayQuestion>,
    pub input: String,
    pub revision_input: String,
    pub error: Option<String>,
    pub busy: bool,
    pub generate_busy: bool,
    pub cancel_requested: bool,
    /// Whether a live session handle is kept (the application holds it).
    pub has_handle: bool,
    pub provider: ProviderKind,
    pub model: String,
    pub api_token: String,
    pub logs: Vec<String>,
}

/// What a worker needs to open a session.
#[derive(Debug)]
pub struct SessionRequest {
    pub base: String,
    /// The API token, when it is not blank.
    pub token: Option<String>,
    pub api_key: String,
    pub model: String,
    pub provider: ProviderKind,
}

/// A copy of a back-end choice.
pub fn copy_provider(k: &ProviderKind) -> (r: ProviderKind)
    ensures
        r == *k,
{
    match k {
        ProviderKind::OpenAi => ProviderKind::OpenAi,
        ProviderKind::Gemini => ProviderKind::Gemini,
        ProviderKind::Mock => ProviderKind::Mock,
        ProviderKind::Custom(u) => ProviderKind::Custom(u.clone()),
    }
}

/// The token sent with requests: the API token, when it is not blank.
pub open spec fn request_token(api_token: Seq<char>) -> Option<Seq<char>> {
    if trim(api_token).len() == 0 {
        None
    } else {
        Some(api_token)
    }
}

/// The view of an optional string.
pub open spec fn opt_view(o: Option<String>) -> Option<Seq<char>> {
    match o {
        Some(s) => Some(s@),
        None => None,
    }
}

/// Two back-end choices name the same back end (a custom one by its
/// address text).
pub open spec fn same_choice(a: ProviderKind, b: ProviderKind) -> bool {
    match (a, b) {
        (ProviderKind::OpenAi, ProviderKind::OpenAi) => true,
        (ProviderKind::Gemini, ProviderKind::Gemini) => true,
        (ProviderKind::Mock, ProviderKind::Mock) => true,
        (ProviderKind::Custom(x), ProviderKind::Custom(y)) => x@ == y@,
        _ => false,
    }
}

/// `ProviderKind ==`; see `same_choice`.
pub fn same_provider(a: &ProviderKind, b: &ProviderKind) -> (r: bool)
    ensures
        r == same_choice(*a, *b),
{
    match (a, b) {
        (ProviderKind::OpenAi, ProviderKind::OpenAi) => true,
        (ProviderKind::Gemini, ProviderKind::Gemini) => true,
        (ProviderKind::Mock, ProviderKind::Mock) => true,
        (ProviderKind::Custom(x), ProviderKind::Custom(y)) => crate::json::string_eq(x, y),
        _ => false,
    }
}

/// The request token, computed.
fn token_of(api_token: &String) -> (r: Option<String>)
    ensures
        opt_view(r) == request_token(api_token@),
{
    if trim_vec(chars_of(api_token.as_str()).as_slice()).len() == 0 {
        None
    } else {
        Some(api_token.clone())
    }
}

/// `push_message`: the message is appended, with a fresh id and the time,
/// which also becomes the session's last update.
pub fn push_message<A, P>(session: &mut ScreenplaySession<A, P>, role: ChatRole, text: String, now_ms: i64)
    ensures
        final(session).messages@.len() == old(session).messages@.len() + 1,
        final(session).messages@.drop_last() == old(session).messages@,
        ({
            let m = final(session).messages@.last();
            &&& exists|id: u128| m.id@ == uuid_text(id)
            &&& m.role == role
            &&& m.text == text
            &&& m.created_at_ms == Some(now_ms)
        }),
        final(session).updated_at_ms == Some(now_ms),
        final(session).id == old(session).id,
        final(session).project_id == old(session).project_id,
        final(session).created_at_ms == old(session).created_at_ms,
        final(session).completed == old(session).completed,
        final(session).question_index == old(session).question_index,
        final(session).answers == old(session).answers,
        final(session).screenplay == old(session).screenplay,
        final(session).prompts == old(session).prompts,
{
    let id = crate::ids::random_uuid();
    let m = ScreenplayMessage { id: crate::ids::uuid_string(id), role, text, created_at_ms: Some(now_ms) };
    assert(m.id@ == uuid_text(id));
    session.messages.push(m);
    assert(session.messages@.drop_last() =~= old(session).messages@);
    session.updated_at_ms = Some(now_ms);
}

/// Whether a user wrote one of the messages.
pub open spec fn has_user_message(m: Seq<ScreenplayMessage>) -> bool {
    exists|i: int| 0 <= i < m.len() && #[trigger] m[i].role == ChatRole::User
}

/// The badge of the panel's header.
#[derive(Clone, Copy, Debug, PartialEq, Eq, Structural)]
pub enum ScreenplayStatus {
    Error,
    Processing,
    Connected,
    Idle,
}

impl<A, P> ScreenplayPanel<A, P> {
    /// All fields but the ones a step names stay: the ones that no step
    /// here touches.
    pub open spec fn same_settings(&self, other: &Self) -> bool {
        &&& self.provider == other.provider
        &&& self.model == other.model
        &&& self.api_token == other.api_token
    }

    /// `screenplay_toggle_panel`: the panel shows or hides, its error is
    /// cleared; shown, it opens on the conversation; hidden, the live handle
    /// is dropped.
    pub fn screenplay_toggle_panel(&mut self)
        ensures
            final(self).show_panel == !old(self).show_panel,
            final(self).error is None,
            final(self).active_tab == if final(self).show_panel {
                ScreenplayTab::Conversation
            } else {
                old(self).active_tab
            },
            final(self).has_handle == (final(self).show_panel && old(self).has_handle),
            final(self).session == old(self).session,
            final(self).questions == old(self).questions,
            final(self).input == old(self).input,
            final(self).revision_input == old(self).revision_input,
            final(self).busy == old(self).busy,
            final(self).generate_busy == old(self).generate_busy,
            final(self).cancel_requested == old(self).cancel_requested,
            final(self).logs == old(self).logs,
            final(self).same_settings(&*old(self)),
    {
        self.show_panel = !self.show_panel;
        self.error = None;
        if self.show_panel {
            self.active_tab = ScreenplayTab::Conversation;
        } else {
            self.has_handle = false;
        }
    }

    /// The badge of the header: the error, when there is one; else
    /// processing while a request runs; else connected with a session; else
    /// idle.
    pub fn screenplay_status(&self) -> (r: ScreenplayStatus)
        ensures
            r == if self.error is Some {
                ScreenplayStatus::Error
            } else if self.busy || self.generate_busy {
                ScreenplayStatus::Processing
            } else if self.session is Some {
                ScreenplayStatus::Connected
            } else {
                ScreenplayStatus::Idle
            },
    {
        if self.error.is_some() {
            ScreenplayStatus::Error
        } else if self.busy || self.generate_busy {
            ScreenplayStatus::Processing
        } else if self.session.is_some() {
            ScreenplayStatus::Connected
        } else {
            ScreenplayStatus::Idle
        }
    }

    /// The back-end picker of the header: another back end is taken, and
    /// the model settled for it (see `settled_model`).
    pub fn screenplay_select_provider(&mut self, provider: ProviderKind)
        ensures
            final(self).provider == if same_choice(provider, old(self).provider) {
                old(self).provider
            } else {
                provider
            },
            final(self).model@ == if same_choice(provider, old(self).provider) {
                old(self).model@
            } else {
                settled_model(model_options(provider), old(self).model@)
            },
            final(self).api_token == old(self).api_token,
            final(self).session == old(self).session,
            final(self).error == old(self).error,
            final(self).busy == old(self).busy,
            final(self).generate_busy == old(self).generate_busy,
            final(self).logs == old(self).logs,
    {
        if !same_provider(&provider, &self.provider) {
            self.provider = provider;
            self.model = ensure_screenplay_model(&self.provider, self.model.as_str());
        }
    }

    /// `screenplay_pause_current`: while a request runs, its answer will be
    /// ignored, nothing is busy any more, and the pause is reported; else
    /// nothing changes.
    pub fn screenplay_pause_current(&mut self)
        ensures
            !(old(self).busy || old(self).generate_busy) ==> *final(self) == *old(self),
            (old(self).busy || old(self).generate_busy) ==> {
                &&& final(self).cancel_requested
                &&& !final(self).busy
                &&& !final(self).generate_busy
                &&& opt_view(final(self).error) == Some("Paused current request"@)
                &&& log_view(final(self).logs@) == pushed_log(log_view(old(self).logs@), "Current request paused."@)
                &&& final(self).session == old(self).session
                &&& final(self).questions == old(self).questions
                &&& final(self).input == old(self).input
                &&& final(self).has_handle == old(self).has_handle
                &&& final(self).active_tab == old(self).active_tab
                &&& final(self).same_settings(&*old(self))
            },
    {
        if !(self.busy || self.generate_busy) {
            return;
        }
        self.cancel_requested = true;
        self.busy = false;
        self.generate_busy = false;
        self.error = Some(String::from_str("Paused current request"));
        screenplay_push_log(&mut self.logs, String::from_str("Current request paused."));
    }

    /// `screenplay_start_session`: the panel is reset for a new session
    /// (no session, questions, input, handle or error; the conversation tab;
    /// busy), the connection is logged, and the request for the worker is
    /// returned.
    pub fn screenplay_start_session(&mut self) -> (r: SessionRequest)
        ensures
            final(self).session is None,
            final(self).questions@.len() == 0,
            final(self).input@ == Seq::<char>::empty(),
            final(self).active_tab == ScreenplayTab::Conversation,
            !final(self).cancel_requested,
            !final(self).has_handle,
            final(self).busy,
            !final(self).generate_busy,
            final(self).error is None,
            log_view(final(self).logs@) == pushed_log(
                log_view(old(self).logs@),
                "Connecting to "@ + provider_label_of(old(self).provider) + " ("@ + old(self).model@ + ")..."@,
            ),
            final(self).show_panel == old(self).show_panel,
            final(self).revision_input == old(self).revision_input,
            final(self).same_settings(&*old(self)),
            r.base@ == provider_base_of(old(self).provider),
            opt_view(r.token) == request_token(old(self).api_token@),
            r.api_key == old(self).api_token,
            r.model == old(self).model,
            r.provider == old(self).provider,
    {
        self.error = None;
        self.session = None;
        self.questions = Vec::new();
        self.input = String::new();
        self.active_tab = ScreenplayTab::Conversation;
        self.cancel_requested = false;
        self.has_handle = false;
        self.busy = true;
        self.generate_busy = false;
        let base = screenplay_provider_base(&self.provider);
        let token = token_of(&self.api_token);
        let entry = cat3(
            cat3("Connecting to ", provider_label(&self.provider), " (").as_str(),
            self.model.as_str(),
            ")...",
        );
        screenplay_push_log(&mut self.logs, entry);
        SessionRequest {
            base,
            token,
            api_key: self.api_token.clone(),
            model: self.model.clone(),
            provider: copy_provider(&self.provider),
        }
    }
}

/// The label of a back end (see `provider_label`).
pub open spec fn provider_label_of(k: ProviderKind) -> Seq<char> {
    match k {
        ProviderKind::OpenAi => "OpenAI"@,
        ProviderKind::Gemini => "Gemini"@,
        ProviderKind::Mock => "Mock"@,
        ProviderKind::Custom(_) => "Custom"@,
    }
}

/// The base address of a back end (see `screenplay_provider_base`).
pub open spec fn provider_base_of(k: ProviderKind) -> Seq<char> {
    match k {
        ProviderKind::OpenAi => "https://api.openai.com/v1"@,
        ProviderKind::Gemini => "https://generativelanguage.googleapis.com"@,
        ProviderKind::Mock => "http://localhost:3001/api/screenplay"@,
        ProviderKind::Custom(url) => url@,
    }
}

/// `after` is `before` with the user's message posted at `now_ms`: the
/// message appended (see `push_message`) and the session no longer complete.
pub open spec fn posted<A, P>(after: ScreenplaySession<A, P>, before: ScreenplaySession<A, P>, text: Seq<char>, now_ms: i64) -> bool {
    &&& after.messages@.len() == before.messages@.len() + 1
    &&& after.messages@.drop_last() == before.messages@
    &&& exists|id: u128| after.messages@.last().id@ == uuid_text(id)
    &&& after.messages@.last().role == ChatRole::User
    &&& after.messages@.last().text@ == text
    &&& after.messages@.last().created_at_ms == Some(now_ms)
    &&& after.updated_at_ms == Some(now_ms)
    &&& !after.completed
    &&& after.id == before.id
    &&& after.project_id == before.project_id
    &&& after.created_at_ms == before.created_at_ms
    &&& after.question_index == before.question_index
    &&& after.answers == before.answers
    &&& after.screenplay == before.screenplay
    &&& after.prompts == before.prompts
}

/// What a worker needs to write a draft.
#[derive(Debug)]
pub struct DraftRequest {
    pub base: String,
    pub token: Option<String>,
    pub session_id: String,
    pub provider: ProviderKind,
    pub model: String,
}

impl<A, P> ScreenplayPanel<A, P> {
    /// A refused request: the error is shown and the reason logged; nothing
    /// else changes.
    pub open spec fn refused(&self, before: &Self, error: Seq<char>, log: Seq<char>) -> bool {
        &&& opt_view(self.error) == Some(error)
        &&& log_view(self.logs@) == pushed_log(log_view(before.logs@), log)
        &&& self.session == before.session
        &&& self.questions == before.questions
        &&& self.input == before.input
        &&& self.revision_input == before.revision_input
        &&& self.busy == before.busy
        &&& self.generate_busy == before.generate_busy
        &&& self.cancel_requested == before.cancel_requested
        &&& self.has_handle == before.has_handle
        &&& self.active_tab == before.active_tab
        &&& self.show_panel == before.show_panel
        &&& self.same_settings(before)
    }

    /// A refusal, made.
    fn refuse(&mut self, error: &str, log: &str)
        ensures
            final(self).refused(&*old(self), error@, log@),
    {
        self.error = Some(String::from_str(error));
        screenplay_push_log(&mut self.logs, String::from_str(log));
    }

    /// `screenplay_send_message`: ignored while a request runs; refused
    /// without a session or with a blank input; else the trimmed input is
    /// posted to the session (see `posted`), the panel is busy, and the text
    /// for the worker is returned (the input stays until the answer comes).
    pub fn screenplay_send_message(&mut self, now_ms: i64) -> (r: Option<String>)
        ensures
            old(self).busy ==> *final(self) == *old(self) && r is None,
            !old(self).busy && old(self).session is None ==> r is None && final(self).refused(
                &*old(self),
                "Start a session first"@,
                "Cannot send message: no active session."@,
            ),
            !old(self).busy && old(self).session is Some && trim(old(self).input@).len() == 0 ==> r is None
                && final(self).refused(&*old(self), "Message cannot be empty"@, "Message not sent: input was empty."@),
            !old(self).busy && old(self).session is Some && trim(old(self).input@).len() > 0 ==> {
                &&& r matches Some(t) && t@ == trim(old(self).input@)
                &&& final(self).session matches Some(after) && posted(after, old(self).session.unwrap(), trim(old(self).input@), now_ms)
                &&& final(self).error is None
                &&& !final(self).cancel_requested
                &&& final(self).busy
                &&& final(self).generate_busy == old(self).generate_busy
                &&& final(self).questions == old(self).questions
                &&& final(self).input == old(self).input
                &&& final(self).revision_input == old(self).revision_input
                &&& final(self).has_handle == old(self).has_handle
                &&& final(self).active_tab == old(self).active_tab
                &&& final(self).show_panel == old(self).show_panel
                &&& final(self).logs == old(self).logs
                &&& final(self).same_settings(&*old(self))
            },
    {
        if self.busy {
            return None;
        }
        if self.session.is_none() {
            self.refuse("Start a session first", "Cannot send message: no active session.");
            return None;
        }
        let message = string_of(trim_vec(chars_of(self.input.as_str()).as_slice()).as_slice());
        if message.as_str().unicode_len() == 0 {
            self.refuse("Message cannot be empty", "Message not sent: input was empty.");
            return None;
        }
        let mut taken: Option<ScreenplaySession<A, P>> = None;
        std::mem::swap(&mut taken, &mut self.session);
        if let Some(mut session) = taken {
            push_message(&mut session, ChatRole::User, message.clone(), now_ms);
            session.completed = false;
            self.session = Some(session);
        }
        self.error = None;
        self.cancel_requested = false;
        self.busy = true;
        Some(message)
    }

    /// `screenplay_generate_screenplay`: ignored while a draft is written;
    /// refused without a session, or before the user wrote anything; else
    /// the panel is busy with the draft and the worker's request is
    /// returned.
    pub fn screenplay_generate_screenplay(&mut self) -> (r: Option<DraftRequest>)
        ensures
            old(self).generate_busy ==> *final(self) == *old(self) && r is None,
            !old(self).generate_busy && old(self).session is None ==> r is None && final(self).refused(
                &*old(self),
                "Start a session first"@,
                "Cannot generate draft: no active session."@,
            ),
            !old(self).generate_busy && old(self).session is Some && !has_user_message(old(self).session.unwrap().messages@) ==> r is None
                && final(self).refused(
                &*old(self),
                "Share a few story details with the assistant before generating a draft."@,
                "Draft generation requires at least one user message."@,
            ),
            !old(self).generate_busy && old(self).session is Some && has_user_message(old(self).session.unwrap().messages@) ==> {
                &&& r matches Some(q) && q.base@ == provider_base_of(old(self).provider)
                    && opt_view(q.token) == request_token(old(self).api_token@) && q.session_id == old(self).session.unwrap().id
                    && q.provider == old(self).provider && q.model == old(self).model
                &&& final(self).error is None
                &&& !final(self).cancel_requested
                &&& final(self).generate_busy
                &&& final(self).busy == old(self).busy
                &&& final(self).session == old(self).session
                &&& final(self).questions == old(self).questions
                &&& final(self).input == old(self).input
                &&& final(self).revision_input == old(self).revision_input
                &&& final(self).has_handle == old(self).has_handle
                &&& final(self).active_tab == old(self).active_tab
                &&& final(self).show_panel == old(self).show_panel
                &&& final(self).logs == old(self).logs
                &&& final(self).same_settings(&*old(self))
            },
    {
        if self.generate_busy {
            return None;
        }
        let (session_id, has_user) = match &self.session {
            None => {
                self.refuse("Start a session first", "Cannot generate draft: no active session.");
                return None;
            },
            Some(s) => {
                let mut found = false;
                let mut i: usize = 0;
                while i < s.messages.len()
                    invariant
                        i <= s.messages@.len(),
                        found == exists|j: int| 0 <= j < i && #[trigger] s.messages@[j].role == ChatRole::User,
                    decreases s.messages@.len() - i,
                {
                    if s.messages[i].role == ChatRole::User {
                        found = true;
                    }
                    i = i + 1;
                }
                (s.id.clone(), found)
            },
        };
        if !has_user {
            self.refuse(
                "Share a few story details with the assistant before generating a draft.",
                "Draft generation requires at least one user message.",
            );
            return None;
        }
        self.error = None;
        self.cancel_requested = false;
        self.generate_busy = true;
        Some(DraftRequest {
            base: screenplay_provider_base(&self.provider),
            token: token_of(&self.api_token),
            session_id,
            provider: copy_provider(&self.provider),
            model: self.model.clone(),
        })
    }

    /// `screenplay_request_revision`: ignored while a request runs; refused
    /// with blank instructions, without a session, without a draft, or
    /// without a live handle (in that order); else the panel is busy, the
    /// request is logged and the trimmed instructions are returned.
    pub fn screenplay_request_revision(&mut self) -> (r: Option<String>)
        ensures
            (old(self).busy || old(self).generate_busy) ==> *final(self) == *old(self) && r is None,
            !(old(self).busy || old(self).generate_busy) ==> {
                let t = trim(old(self).revision_input@);
                if t.len() == 0 {
                    r is None && final(self).refused(
                        &*old(self),
                        "Enter revision instructions before sending a request."@,
                        "Revision not sent: instructions were empty."@,
                    )
                } else if old(self).session is None {
                    r is None && final(self).refused(
                        &*old(self),
                        "Start a session to request revisions."@,
                        "Revision not sent: no active session."@,
                    )
                } else if old(self).session.unwrap().screenplay is None {
                    r is None && final(self).refused(
                        &*old(self),
                        "Generate a screenplay before requesting revisions."@,
                        "Revision not sent: screenplay draft is missing."@,
                    )
                } else if !old(self).has_handle {
                    r is None && final(self).refused(
                        &*old(self),
                        "This provider does not support live revisions in the current mode."@,
                        "Revision not sent: provider does not expose revision capabilities."@,
                    )
                } else {
                    &&& r matches Some(i) && i@ == t
                    &&& final(self).error is None
                    &&& !final(self).cancel_requested
                    &&& final(self).busy
                    &&& log_view(final(self).logs@) == pushed_log(log_view(old(self).logs@), "Requesting screenplay revision…"@)
                    &&& final(self).generate_busy == old(self).generate_busy
                    &&& final(self).session == old(self).session
                    &&& final(self).questions == old(self).questions
                    &&& final(self).input == old(self).input
                    &&& final(self).revision_input == old(self).revision_input
                    &&& final(self).has_handle == old(self).has_handle
                    &&& final(self).active_tab == old(self).active_tab
                    &&& final(self).show_panel == old(self).show_panel
                    &&& final(self).same_settings(&*old(self))
                }
            },
    {
        if self.busy || self.generate_busy {
            return None;
        }
        let instructions = string_of(trim_vec(chars_of(self.revision_input.as_str()).as_slice()).as_slice());
        if instructions.as_str().unicode_len() == 0 {
            self.refuse(
                "Enter revision instructions before sending a request.",
                "Revision not sent: instructions were empty.",
            );
            return None;
        }
        let has_draft = match &self.session {
            None => {
                self.refuse("Start a session to request revisions.", "Revision not sent: no active session.");
                return None;
            },
            Some(s) => s.screenplay.is_some(),
        };
        if !has_draft {
            self.refuse(
                "Generate a screenplay before requesting revisions.",
                "Revision not sent: screenplay draft is missing.",
            );
            return None;
        }
        if !self.has_handle {
            self.refuse(
                "This provider does not support live revisions in the current mode.",
                "Revision not sent: provider does not expose revision capabilities.",
            );
            return None;
        }
        self.error = None;
        self.cancel_requested = false;
        self.busy = true;
        screenplay_push_log(&mut self.logs, String::from_str("Requesting screenplay revision…"));
        Some(instructions)
    }
}

/// The session a draft opens when there is none yet.
pub open spec fn is_local_session<A, P>(s: ScreenplaySession<A, P>, draft: ScreenplayDraft) -> bool {
    &&& s.id@ == "local"@
    &&& s.project_id is None
    &&& s.created_at_ms is None
    &&& s.updated_at_ms is None
    &&& s.completed
    &&& s.question_index == 0
    &&& s.answers@.len() == 0
    &&& s.messages@.len() == 0
    &&& s.screenplay == Some(draft)
    &&& s.prompts is None
}

/// `after` holds the draft in place of `before`'s, with no prompts.
pub open spec fn with_draft<A, P>(after: ScreenplaySession<A, P>, before: ScreenplaySession<A, P>, draft: ScreenplayDraft) -> bool {
    &&& after.screenplay == Some(draft)
    &&& after.prompts is None
    &&& after.id == before.id
    &&& after.project_id == before.project_id
    &&& after.created_at_ms == before.created_at_ms
    &&& after.updated_at_ms == before.updated_at_ms
    &&& after.completed == before.completed
    &&& after.question_index == before.question_index
    &&& after.answers == before.answers
    &&& after.messages == before.messages
}

impl<A, P> ScreenplayPanel<A, P> {
    /// The session with a draft put in: into the session there is (its
    /// prompts dropped), or into a new local one.
    fn put_draft(&mut self, draft: ScreenplayDraft)
        ensures
            match old(self).session {
                Some(before) => final(self).session matches Some(after) && with_draft(after, before, draft),
                None => final(self).session matches Some(after) && is_local_session(after, draft),
            },
            final(self).error == old(self).error,
            final(self).questions == old(self).questions,
            final(self).input == old(self).input,
            final(self).revision_input == old(self).revision_input,
            final(self).busy == old(self).busy,
            final(self).generate_busy == old(self).generate_busy,
            final(self).cancel_requested == old(self).cancel_requested,
            final(self).has_handle == old(self).has_handle,
            final(self).active_tab == old(self).active_tab,
            final(self).show_panel == old(self).show_panel,
            final(self).logs == old(self).logs,
            final(self).same_settings(&*old(self)),
    {
        let mut taken: Option<ScreenplaySession<A, P>> = None;
        std::mem::swap(&mut taken, &mut self.session);
        match taken {
            Some(mut session) => {
                session.screenplay = Some(draft);
                session.prompts = None;
                self.session = Some(session);
            },
            None => {
                self.session = Some(
                    ScreenplaySession {
                        id: String::from_str("local"),
                        project_id: None,
                        created_at_ms: None,
                        updated_at_ms: None,
                        completed: true,
                        question_index: 0,
                        answers: Vec::new(),
                        messages: Vec::new(),
                        screenplay: Some(draft),
                        prompts: None,
                    },
                );
            },
        }
    }

    /// The session's draft replaced by a revision, when there is a session.
    fn put_revision(&mut self, draft: ScreenplayDraft)
        ensures
            match old(self).session {
                Some(before) => final(self).session matches Some(after) && with_draft(after, before, draft),
                None => final(self).session is None,
            },
            final(self).error == old(self).error,
            final(self).questions == old(self).questions,
            final(self).input == old(self).input,
            final(self).revision_input == old(self).revision_input,
            final(self).busy == old(self).busy,
            final(self).generate_busy == old(self).generate_busy,
            final(self).cancel_requested == old(self).cancel_requested,
            final(self).has_handle == old(self).has_handle,
            final(self).active_tab == old(self).active_tab,
            final(self).show_panel == old(self).show_panel,
            final(self).logs == old(self).logs,
            final(self).same_settings(&*old(self)),
    {
        let mut taken: Option<ScreenplaySession<A, P>> = None;
        std::mem::swap(&mut taken, &mut self.session);
        if let Some(mut session) = taken {
            session.screenplay = Some(draft);
            session.prompts = None;
            self.session = Some(session);
        }
    }

    /// `screenplay_handle_event`: after a pause the next answer is dropped
    /// (and the pause is over); else the answer is taken:
    /// - a session: kept with its questions and handle, the input cleared,
    ///   the conversation shown and the connection logged; a failure is
    ///   shown and logged and the handle dropped;
    /// - a posted message: the session and questions replaced and the input
    ///   cleared; a failure shown and logged;
    /// - a draft: put into the session (see `put_draft`), the draft tab
    ///   shown and the revision input cleared; a failure shown and logged;
    /// - a revision: put into the session, the revision input cleared and
    ///   the revision logged; a failure shown and logged.
    /// The request the answer belongs to is no longer running.
    pub fn screenplay_handle_event(&mut self, event: ScreenplayEvent<A, P>)
        ensures
            old(self).cancel_requested ==> !final(self).cancel_requested && final(self).session == old(self).session
                && final(self).error == old(self).error && final(self).busy == old(self).busy
                && final(self).generate_busy == old(self).generate_busy && final(self).logs == old(self).logs
                && final(self).questions == old(self).questions && final(self).input == old(self).input
                && final(self).revision_input == old(self).revision_input && final(self).has_handle == old(self).has_handle
                && final(self).active_tab == old(self).active_tab,
            !old(self).cancel_requested ==> {
                &&& !final(self).cancel_requested
                &&& final(self).show_panel == old(self).show_panel
                &&& final(self).same_settings(&*old(self))
                &&& match event {
                    ScreenplayEvent::SessionStarted(Ok((session, questions, handle))) => {
                        &&& !final(self).busy && final(self).generate_busy == old(self).generate_busy
                        &&& final(self).session == Some(session)
                        &&& final(self).questions == questions
                        &&& final(self).error is None
                        &&& final(self).input@ == Seq::<char>::empty()
                        &&& final(self).revision_input == old(self).revision_input
                        &&& final(self).has_handle == handle
                        &&& final(self).active_tab == ScreenplayTab::Conversation
                        &&& log_view(final(self).logs@) == pushed_log(
                            log_view(old(self).logs@),
                            "Connected to "@ + provider_label_of(old(self).provider) + " ("@ + old(self).model@ + ")"@,
                        )
                    },
                    ScreenplayEvent::SessionStarted(Err(e)) => {
                        &&& !final(self).busy && final(self).generate_busy == old(self).generate_busy
                        &&& final(self).session == old(self).session
                        &&& final(self).questions == old(self).questions
                        &&& opt_view(final(self).error) == Some(e@)
                        &&& final(self).input == old(self).input
                        &&& final(self).revision_input == old(self).revision_input
                        &&& !final(self).has_handle
                        &&& final(self).active_tab == old(self).active_tab
                        &&& log_view(final(self).logs@) == pushed_log(log_view(old(self).logs@), "Session failed: "@ + e@)
                    },
                    ScreenplayEvent::MessagePosted(Ok((session, questions))) => {
                        &&& !final(self).busy && final(self).generate_busy == old(self).generate_busy
                        &&& final(self).session == Some(session)
                        &&& final(self).questions == questions
                        &&& final(self).error is None
                        &&& final(self).input@ == Seq::<char>::empty()
                        &&& final(self).revision_input == old(self).revision_input
                        &&& final(self).has_handle == old(self).has_handle
                        &&& final(self).active_tab == old(self).active_tab
                        &&& final(self).logs == old(self).logs
                    },
                    ScreenplayEvent::MessagePosted(Err(e)) => {
                        &&& !final(self).busy && final(self).generate_busy == old(self).generate_busy
                        &&& final(self).session == old(self).session
                        &&& final(self).questions == old(self).questions
                        &&& opt_view(final(self).error) == Some(e@)
                        &&& final(self).input == old(self).input
                        &&& final(self).revision_input == old(self).revision_input
                        &&& final(self).has_handle == old(self).has_handle
                        &&& final(self).active_tab == old(self).active_tab
                        &&& log_view(final(self).logs@) == pushed_log(log_view(old(self).logs@), "Message failed: "@ + e@)
                    },
                    ScreenplayEvent::ScreenplayGenerated(Ok(draft)) => {
                        &&& !final(self).generate_busy && final(self).busy == old(self).busy
                        &&& match old(self).session {
                            Some(before) => final(self).session matches Some(after) && with_draft(after, before, draft),
                            None => final(self).session matches Some(after) && is_local_session(after, draft),
                        }
                        &&& final(self).questions == old(self).questions
                        &&& final(self).error is None
                        &&& final(self).input == old(self).input
                        &&& final(self).revision_input@ == Seq::<char>::empty()
                        &&& final(self).has_handle == old(self).has_handle
                        &&& final(self).active_tab == ScreenplayTab::Draft
                        &&& final(self).logs == old(self).logs
                    },
                    ScreenplayEvent::ScreenplayGenerated(Err(e)) => {
                        &&& !final(self).generate_busy && final(self).busy == old(self).busy
                        &&& final(self).session == old(self).session
                        &&& final(self).questions == old(self).questions
                        &&& opt_view(final(self).error) == Some(e@)
                        &&& final(self).input == old(self).input
                        &&& final(self).revision_input == old(self).revision_input
                        &&& final(self).has_handle == old(self).has_handle
                        &&& final(self).active_tab == old(self).active_tab
                        &&& log_view(final(self).logs@) == pushed_log(log_view(old(self).logs@), "Draft generation failed: "@ + e@)
                    },
                    ScreenplayEvent::RevisionApplied(Ok(draft)) => {
                        &&& !final(self).busy && final(self).generate_busy == old(self).generate_busy
                        &&& match old(self).session {
                            Some(before) => final(self).session matches Some(after) && with_draft(after, before, draft),
                            None => final(self).session is None,
                        }
                        &&& final(self).questions == old(self).questions
                        &&& final(self).error is None
                        &&& final(self).input == old(self).input
                        &&& final(self).revision_input@ == Seq::<char>::empty()
                        &&& final(self).has_handle == old(self).has_handle
                        &&& final(self).active_tab == old(self).active_tab
                        &&& log_view(final(self).logs@) == pushed_log(log_view(old(self).logs@), "Revision applied to screenplay draft."@)
                    },
                    ScreenplayEvent::RevisionApplied(Err(e)) => {
                        &&& !final(self).busy && final(self).generate_busy == old(self).generate_busy
                        &&& final(self).session == old(self).session
                        &&& final(self).questions == old(self).questions
                        &&& opt_view(final(self).error) == Some(e@)
                        &&& final(self).input == old(self).input
                        &&& final(self).revision_input == old(self).revision_input
                        &&& final(self).has_handle == old(self).has_handle
                        &&& final(self).active_tab == old(self).active_tab
                        &&& log_view(final(self).logs@) == pushed_log(log_view(old(self).logs@), "Revision failed: "@ + e@)
                    },
                }
            },
    {
        if self.cancel_requested {
            self.cancel_requested = false;
            return;
        }
        match event {
            ScreenplayEvent::SessionStarted(result) => {
                self.busy = false;
                match result {
                    Ok((session, questions, handle)) => {
                        self.session = Some(session);
                        self.questions = questions;
                        self.error = None;
                        self.input = String::new();
                        self.has_handle = handle;
                        self.active_tab = ScreenplayTab::Conversation;
                        let entry = cat3(
                            cat3("Connected to ", provider_label(&self.provider), " (").as_str(),
                            self.model.as_str(),
                            ")",
                        );
                        screenplay_push_log(&mut self.logs, entry);
                    },
                    Err(e) => {
                        let entry = cat("Session failed: ", e.as_str());
                        self.error = Some(e);
                        self.has_handle = false;
                        screenplay_push_log(&mut self.logs, entry);
                    },
                }
            },
            ScreenplayEvent::MessagePosted(result) => {
                self.busy = false;
                match result {
                    Ok((session, questions)) => {
                        self.session = Some(session);
                        self.questions = questions;
                        self.error = None;
                        self.input = String::new();
                    },
                    Err(e) => {
                        let entry = cat("Message failed: ", e.as_str());
                        self.error = Some(e);
                        screenplay_push_log(&mut self.logs, entry);
                    },
                }
            },
            ScreenplayEvent::ScreenplayGenerated(result) => {
                self.generate_busy = false;
                match result {
                    Ok(draft) => {
                        self.put_draft(draft);
                        self.error = None;
                        self.active_tab = ScreenplayTab::Draft;
                        self.revision_input = String::new();
                    },
                    Err(e) => {
                        let entry = cat("Draft generation failed: ", e.as_str());
                        self.error = Some(e);
                        screenplay_push_log(&mut self.logs, entry);
                    },
                }
            },
            ScreenplayEvent::RevisionApplied(result) => {
                self.busy = false;
                match result {
                    Ok(draft) => {
                        self.put_revision(draft);
                        self.error = None;
                        self.revision_input = String::new();
                        screenplay_push_log(&mut self.logs, String::from_str("Revision applied to screenplay draft."));
                    },
                    Err(e) => {
                        let entry = cat("Revision failed: ", e.as_str());
                        self.error = Some(e);
                        screenplay_push_log(&mut self.logs, entry);
                    },
                }
            },
        }
    }
}

/// Why a draft cannot be applied: the error to show and the line to log;
/// none when the session has a draft with shots.
pub open spec fn apply_refusal<A, P>(session: Option<ScreenplaySession<A, P>>) -> Option<(Seq<char>, Seq<char>)> {
    match session {
        None => Some(("Start a session before applying storyboard shots."@, "Cannot apply storyboard: no active session."@)),
        Some(s) => match s.screenplay {
            None => Some((
                "Generate the screenplay before applying storyboard shots."@,
                "Cannot apply storyboard: screenplay draft missing."@,
            )),
            Some(d) => if d.shots@.len() == 0 {
                Some((
                    "The current screenplay draft has no shots to apply."@,
                    "Cannot apply storyboard: draft contains no shots."@,
                ))
            } else {
                None
            },
        },
    }
}

impl<A, P> ScreenplayPanel<A, P> {
    /// `screenplay_apply_draft_to_storyboard`: refused (see `apply_refusal`)
    /// with the storyboard unchanged; else the storyboard's cards become the
    /// draft's shots (see `Storyboard::screenplay_apply_draft_to_storyboard`),
    /// the session's prompts are dropped, the error cleared and the count
    /// logged. The result says whether the draft was applied (the editor then
    /// shows the storyboard).
    pub fn screenplay_apply_draft_to_storyboard(&mut self, board: &mut Storyboard) -> (r: bool)
        ensures
            r == (apply_refusal(old(self).session) is None),
            !r ==> *final(board) == *old(board) && final(self).refused(
                &*old(self),
                apply_refusal(old(self).session).unwrap().0,
                apply_refusal(old(self).session).unwrap().1,
            ),
            r ==> {
                let before = old(self).session.unwrap();
                let d = before.screenplay.unwrap();
                let n = d.shots@.len();
                &&& final(board).cards@.len() == n
                &&& forall|i: int| 0 <= i < n ==> is_draft_card_content(#[trigger] final(board).cards@[i], d.shots@[i]@, i, old(board).workflows@)
                &&& final(board).selected == Some(0usize)
                &&& final(board).workflows == old(board).workflows
                &&& final(self).session matches Some(after) && after.prompts is None && after.screenplay == before.screenplay
                    && after.id == before.id && after.messages == before.messages && after.answers == before.answers
                    && after.completed == before.completed && after.question_index == before.question_index
                    && after.project_id == before.project_id && after.created_at_ms == before.created_at_ms
                    && after.updated_at_ms == before.updated_at_ms
                &&& final(self).error is None
                &&& log_view(final(self).logs@) == pushed_log(log_view(old(self).logs@), applied_log(n))
                &&& final(self).questions == old(self).questions
                &&& final(self).input == old(self).input
                &&& final(self).revision_input == old(self).revision_input
                &&& final(self).busy == old(self).busy
                &&& final(self).generate_busy == old(self).generate_busy
                &&& final(self).cancel_requested == old(self).cancel_requested
                &&& final(self).has_handle == old(self).has_handle
                &&& final(self).active_tab == old(self).active_tab
                &&& final(self).show_panel == old(self).show_panel
                &&& final(self).same_settings(&*old(self))
            },
    {
        let result = match &self.session {
            Some(s) => board.screenplay_apply_draft_to_storyboard(true, s.screenplay.as_ref()),
            None => board.screenplay_apply_draft_to_storyboard(false, None),
        };
        match result {
            Ok(log) => {
                let mut taken: Option<ScreenplaySession<A, P>> = None;
                std::mem::swap(&mut taken, &mut self.session);
                if let Some(mut session) = taken {
                    session.prompts = None;
                    self.session = Some(session);
                }
                self.error = None;
                screenplay_push_log(&mut self.logs, log);
                true
            },
            Err((error, log)) => {
                self.error = Some(error);
                screenplay_push_log(&mut self.logs, log);
                false
            },
        }
    }
}

impl<A, P> ScreenplayPanel<A, P> {
    /// Whether the draft tab's revision button is enabled: instructions
    /// that are not blank, a live handle, a session with a draft, and no
    /// request running.
    pub fn screenplay_revision_enabled(&self) -> (r: bool)
        ensures
            r == (trim(self.revision_input@).len() > 0 && self.has_handle && (self.session matches Some(s)
                && s.screenplay is Some) && !self.busy && !self.generate_busy),
    {
        let filled = trim_vec(chars_of(self.revision_input.as_str()).as_slice()).len() > 0;
        let has_draft = match &self.session {
            Some(s) => s.screenplay.is_some(),
            None => false,
        };
        filled && self.has_handle && has_draft && !self.busy && !self.generate_busy
    }

    /// Whether the draft tab's apply button is enabled for a draft: it has
    /// shots and no request is running.
    pub fn screenplay_apply_enabled(&self, draft: &ScreenplayDraft) -> (r: bool)
        ensures
            r == (draft.shots@.len() > 0 && !self.busy && !self.generate_busy),
    {
        draft.shots.len() > 0 && !self.busy && !self.generate_busy
    }
}

} // verus!
