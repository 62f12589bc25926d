//! The assistant chat: keeping its history short and writing the prompt a
//! local model is given.

use vstd::prelude::*;
use crate::text::{chars_of, concat_chars, concat3, string_of, trim, trim_vec};

verus! {

/// How many messages the chat keeps.
pub const CHAT_HISTORY_LIMIT: usize = 60;

/// How many of the last messages go into a prompt.
pub const CHAT_PROMPT_WINDOW: usize = 24;

/// Who wrote a chat message.
#[derive(Clone, Copy, Debug, PartialEq, Eq, Structural)]
pub enum ChatRole {
    System,
    User,
    Assistant,
}

/// A chat message.
#[derive(Debug)]
pub struct ChatMessage {
    pub role: ChatRole,
    pub text: String,
}

/// How many entries the screenplay log keeps.
pub const SCREENPLAY_LOG_LIMIT: usize = 16;

/// The views of the entries of a log.
pub open spec fn log_view(l: Seq<String>) -> Seq<Seq<char>> {
    l.map_values(|x: String| x@)
}

/// `screenplay_push_log`: a blank entry is ignored; otherwise, when the log
/// is full, its oldest entry goes, and the entry is added at the end.
pub open spec fn pushed_log(l: Seq<Seq<char>>, entry: Seq<char>) -> Seq<Seq<char>> {
    if trim(entry).len() == 0 {
        l
    } else if l.len() >= SCREENPLAY_LOG_LIMIT {
        l.drop_first().push(entry)
    } else {
        l.push(entry)
    }
}

/// `screenplay_push_log`; a log within the limit stays within it.
pub fn screenplay_push_log(logs: &mut Vec<String>, entry: String)
    ensures
        log_view(final(logs)@) == pushed_log(log_view(old(logs)@), entry@),
        old(logs)@.len() <= SCREENPLAY_LOG_LIMIT ==> final(logs)@.len() <= SCREENPLAY_LOG_LIMIT,
{
    let t = trim_vec(chars_of(entry.as_str()).as_slice());
    if t.len() == 0 {
        return;
    }
    let ghost before = log_view(logs@);
    if logs.len() >= SCREENPLAY_LOG_LIMIT {
        logs.remove(0);
        assert(log_view(logs@) =~= before.drop_first());
    }
    let ghost mid = log_view(logs@);
    logs.push(entry);
    assert(log_view(logs@) =~= mid.push(entry@));
}

/// The roles and texts of messages.
pub open spec fn messages_view(m: Seq<ChatMessage>) -> Seq<(ChatRole, Seq<char>)> {
    m.map_values(|x: ChatMessage| (x.role, x.text@))
}

/// `trim_chat_history`: past the limit, the oldest messages go; a system
/// message at the start stays.
pub open spec fn trimmed_history(m: Seq<(ChatRole, Seq<char>)>) -> Seq<(ChatRole, Seq<char>)> {
    if m.len() <= CHAT_HISTORY_LIMIT {
        m
    } else {
        let excess = m.len() - CHAT_HISTORY_LIMIT;
        if m[0].0 == ChatRole::System {
            let drain = if excess <= m.len() - 1 {
                excess
            } else {
                m.len() - 1
            };
            seq![m[0]] + m.subrange(1 + drain, m.len() as int)
        } else {
            m.subrange(excess, m.len() as int)
        }
    }
}

/// Trims the chat history to its limit; see `trimmed_history`.
pub fn trim_chat_history(messages: &mut Vec<ChatMessage>)
    ensures
        messages_view(final(messages)@) == trimmed_history(messages_view(old(messages)@)),
{
    let len = messages.len();
    if len <= CHAT_HISTORY_LIMIT {
        return;
    }
    let ghost before = messages_view(messages@);
    let excess = len - CHAT_HISTORY_LIMIT;
    let keep_first = messages[0].role == ChatRole::System;
    let start: usize = if keep_first {
        1
    } else {
        0
    };
    let mut rest: Vec<ChatMessage> = Vec::new();
    std::mem::swap(&mut rest, messages);
    let ghost orig = rest@;
    let mut i: usize = 0;
    let total = rest.len();
    while rest.len() > 0
        invariant
            orig.len() == len,
            total == len,
            len > CHAT_HISTORY_LIMIT,
            excess == len - CHAT_HISTORY_LIMIT,
            i <= len,
            rest@ == orig.subrange(i as int, len as int),
            before == messages_view(orig),
            start == (if keep_first { 1usize } else { 0usize }),
            keep_first == (orig[0].role == ChatRole::System),
            messages_view(messages@) == if keep_first {
                if i == 0 {
                    Seq::empty()
                } else if i <= 1 + excess {
                    seq![before[0]]
                } else {
                    seq![before[0]] + before.subrange(1 + excess, i as int)
                }
            } else {
                if i <= excess {
                    Seq::empty()
                } else {
                    before.subrange(excess as int, i as int)
                }
            },
        decreases rest@.len(),
    {
        let x = rest.remove(0);
        assert(x == orig[i as int]);
        let keep = if keep_first {
            i == 0 || i >= 1 + excess
        } else {
            i >= excess
        };
        let ghost mv = messages_view(messages@);
        if keep {
            messages.push(x);
            assert(messages_view(messages@) =~= mv.push(before[i as int]));
        }
        proof {
            if keep_first {
                if i >= 1 + excess && i > 1 + excess {
                    assert(seq![before[0]] + before.subrange(1 + excess, i + 1) =~= (seq![before[0]] + before.subrange(1 + excess, i as int)).push(before[i as int]));
                }
                if i == 1 + excess {
                    assert(seq![before[0]] + before.subrange(1 + excess, i + 1) =~= seq![before[0]].push(before[i as int]));
                }
                if i == 0 {
                    assert(Seq::<(ChatRole, Seq<char>)>::empty().push(before[0]) =~= seq![before[0]]);
                }
            } else {
                if i > excess {
                    assert(before.subrange(excess as int, i + 1) =~= before.subrange(excess as int, i as int).push(before[i as int]));
                }
                if i == excess {
                    assert(before.subrange(excess as int, i + 1) =~= Seq::<(ChatRole, Seq<char>)>::empty().push(before[i as int]));
                }
            }
        }
        i = i + 1;
        assert(rest@ =~= orig.subrange(i as int, len as int));
    }
    proof {
        if keep_first {
            assert(excess <= len - 1);
        }
        assert(messages_view(messages@) =~= trimmed_history(before));
    }
}

/// The label of a role in a prompt.
pub open spec fn role_label(r: ChatRole) -> Seq<char> {
    match r {
        ChatRole::System => "System"@,
        ChatRole::User => "User"@,
        ChatRole::Assistant => "Assistant"@,
    }
}

/// The prompt lines of messages: role, `: `, the trimmed text, a newline.
pub open spec fn message_lines(m: Seq<(ChatRole, Seq<char>)>) -> Seq<char>
    decreases m.len(),
{
    if m.len() == 0 {
        Seq::empty()
    } else {
        message_lines(m.drop_last()) + role_label(m.last().0) + ": "@ + trim(m.last().1) + seq!['\n']
    }
}

/// `build_chat_prompt`: the trimmed system prompt on its own line (when
/// not blank), the last messages one per line, then `Assistant:`.
pub open spec fn chat_prompt_spec(system_prompt: Seq<char>, history: Seq<(ChatRole, Seq<char>)>) -> Seq<char> {
    let sys = trim(system_prompt);
    let head = if sys.len() == 0 {
        Seq::empty()
    } else if sys.last() == '\n' {
        sys
    } else {
        sys.push('\n')
    };
    let start = if history.len() >= CHAT_PROMPT_WINDOW {
        history.len() - CHAT_PROMPT_WINDOW
    } else {
        0
    };
    head + message_lines(history.subrange(start, history.len() as int)) + "Assistant:"@
}

/// The label of a role.
fn role_label_exec(r: ChatRole) -> (s: &'static str)
    ensures
        s@ == role_label(r),
{
    match r {
        ChatRole::System => "System",
        ChatRole::User => "User",
        ChatRole::Assistant => "Assistant",
    }
}

/// The prompt a local model is given for the chat; see `chat_prompt_spec`.
pub fn build_chat_prompt(system_prompt: &str, history: &[ChatMessage]) -> (r: String)
    ensures
        r@ == chat_prompt_spec(system_prompt@, messages_view(history@)),
{
    let ghost hv = messages_view(history@);
    let sys = trim_vec(chars_of(system_prompt).as_slice());
    let mut prompt: Vec<char> = Vec::new();
    if sys.len() > 0 {
        prompt = crate::text::copy_chars(sys.as_slice());
        if sys[sys.len() - 1] != '\n' {
            prompt.push('\n');
        }
    }
    let ghost head = prompt@;
    let n = history.len();
    let start: usize = if n >= CHAT_PROMPT_WINDOW {
        n - CHAT_PROMPT_WINDOW
    } else {
        0
    };
    let mut i: usize = start;
    assert(hv.subrange(start as int, start as int) =~= Seq::<(ChatRole, Seq<char>)>::empty());
    while i < n
        invariant
            hv == messages_view(history@),
            n == history@.len(),
            start <= i <= n,
            prompt@ == head + message_lines(hv.subrange(start as int, i as int)),
        decreases n - i,
    {
        proof {
            assert(hv.subrange(start as int, i + 1).drop_last() =~= hv.subrange(start as int, i as int));
        }
        let m = &history[i];
        let line = concat3(
            chars_of(role_label_exec(m.role)).as_slice(),
            chars_of(": ").as_slice(),
            trim_vec(chars_of(m.text.as_str()).as_slice()).as_slice(),
        );
        let mut with_nl = line;
        with_nl.push('\n');
        let ghost pv = prompt@;
        prompt = concat_chars(prompt.as_slice(), with_nl.as_slice());
        assert(prompt@ =~= head + message_lines(hv.subrange(start as int, i + 1)));
        i = i + 1;
    }
    let all = concat_chars(prompt.as_slice(), chars_of("Assistant:").as_slice());
    string_of(all.as_slice())
}

/// The assistant chat of the editor: its messages, what is being typed,
/// whether an answer is awaited, and the last error.
#[derive(Debug)]
pub struct ChatPanel {
    pub messages: Vec<ChatMessage>,
    pub input: String,
    pub busy: bool,
    pub error: Option<String>,
    pub system_prompt: String,
}

impl ChatPanel {
    /// `chat_reset`: no messages, input, error, or awaited answer.
    pub fn chat_reset(&mut self)
        ensures
            final(self).messages@.len() == 0,
            final(self).input@ == Seq::<char>::empty(),
            final(self).error is None,
            !final(self).busy,
            final(self).system_prompt == old(self).system_prompt,
    {
        self.messages = Vec::new();
        self.input = String::new();
        self.error = None;
        self.busy = false;
    }

    /// `chat_send_current`: ignored while an answer is awaited or when the
    /// input is blank; else the trimmed input joins the messages as the
    /// user's, the history is trimmed (see `trimmed_history`), the input is
    /// cleared, an answer is awaited, and the prompt for the model (see
    /// `build_chat_prompt`) is returned.
    pub fn chat_send_current(&mut self) -> (r: Option<String>)
        ensures
            (old(self).busy || trim(old(self).input@).len() == 0) ==> r is None && *final(self) == *old(self),
            !(old(self).busy || trim(old(self).input@).len() == 0) ==> {
                &&& messages_view(final(self).messages@) == trimmed_history(
                    messages_view(old(self).messages@).push((ChatRole::User, trim(old(self).input@))),
                )
                &&& final(self).input@ == Seq::<char>::empty()
                &&& final(self).busy
                &&& final(self).error is None
                &&& final(self).system_prompt == old(self).system_prompt
                &&& r matches Some(p) && p@ == chat_prompt_spec(old(self).system_prompt@, messages_view(final(self).messages@))
            },
    {
        if self.busy {
            return None;
        }
        let t = trim_vec(chars_of(self.input.as_str()).as_slice());
        if t.len() == 0 {
            return None;
        }
        let ghost before = messages_view(self.messages@);
        self.messages.push(ChatMessage { role: ChatRole::User, text: string_of(t.as_slice()) });
        assert(messages_view(self.messages@) =~= before.push((ChatRole::User, trim(old(self).input@))));
        trim_chat_history(&mut self.messages);
        self.input = String::new();
        self.busy = true;
        self.error = None;
        Some(build_chat_prompt(self.system_prompt.as_str(), self.messages.as_slice()))
    }

    /// `chat_handle_event`: the answer is no longer awaited; a reply that is
    /// not blank joins the messages trimmed, as the assistant's (the history
    /// then trimmed), and clears the error; a blank reply changes nothing
    /// else; a failure becomes the error.
    pub fn chat_handle_event(&mut self, response: Result<String, String>)
        ensures
            !final(self).busy,
            final(self).input == old(self).input,
            final(self).system_prompt == old(self).system_prompt,
            match response {
                Ok(text) => if trim(text@).len() == 0 {
                    final(self).messages == old(self).messages && final(self).error == old(self).error
                } else {
                    &&& messages_view(final(self).messages@) == trimmed_history(
                        messages_view(old(self).messages@).push((ChatRole::Assistant, trim(text@))),
                    )
                    &&& final(self).error is None
                },
                Err(e) => final(self).messages == old(self).messages && final(self).error == Some(e),
            },
    {
        self.busy = false;
        match response {
            Ok(text) => {
                let t = trim_vec(chars_of(text.as_str()).as_slice());
                if t.len() > 0 {
                    self.error = None;
                    let ghost before = messages_view(self.messages@);
                    self.messages.push(ChatMessage { role: ChatRole::Assistant, text: string_of(t.as_slice()) });
                    assert(messages_view(self.messages@) =~= before.push((ChatRole::Assistant, trim(text@))));
                    trim_chat_history(&mut self.messages);
                }
            },
            Err(e) => {
                self.error = Some(e);
            },
        }
    }
}

} // verus!
