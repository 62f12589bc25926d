//! Watching a ComfyUI server's websocket: the URL it is reached at, and the
//! events read from its messages.

use vstd::prelude::*;
use crate::json::{lemma_view_items, member, obj_get, Json, JsonNumber, JsonValue};
use crate::json_text::{parse_json, parsed_json};
use crate::text::{chars_of, nat_decimal, string_of, trim, trim_vec, u64_decimal_string};

verus! {

/// The UTF-8 encoding of a character.
pub open spec fn utf8_bytes(c: char) -> Seq<u8> {
    let n = c as int;
    if n < 0x80 {
        seq![n as u8]
    } else if n < 0x800 {
        seq![(0xc0 + n / 0x40) as u8, (0x80 + n % 0x40) as u8]
    } else if n < 0x10000 {
        seq![(0xe0 + n / 0x1000) as u8, (0x80 + (n / 0x40) % 0x40) as u8, (0x80 + n % 0x40) as u8]
    } else {
        seq![
            (0xf0 + n / 0x40000) as u8,
            (0x80 + (n / 0x1000) % 0x40) as u8,
            (0x80 + (n / 0x40) % 0x40) as u8,
            (0x80 + n % 0x40) as u8,
        ]
    }
}

/// An upper-case hexadecimal digit.
pub open spec fn hex_upper(d: int) -> char {
    if d < 10 {
        (('0' as int) + d) as char
    } else {
        (('A' as int) + d - 10) as char
    }
}

/// A byte percent-encoded: ASCII letters, digits and `-`, `.`, `_`, `~`
/// stay; any other byte becomes `%` and two upper-case hex digits.
pub open spec fn percent_byte(b: u8) -> Seq<char> {
    if (0x30 <= b <= 0x39) || (0x41 <= b <= 0x5a) || (0x61 <= b <= 0x7a) || b == 0x2d || b == 0x2e || b == 0x5f || b
        == 0x7e {
        seq![b as char]
    } else {
        seq!['%', hex_upper(b as int / 16), hex_upper(b as int % 16)]
    }
}

/// The bytes of a percent-encoded text.
pub open spec fn percent_bytes(bytes: Seq<u8>) -> Seq<char>
    decreases bytes.len(),
{
    if bytes.len() == 0 {
        Seq::empty()
    } else {
        percent_bytes(bytes.drop_last()) + percent_byte(bytes.last())
    }
}

/// The UTF-8 encoding of a text.
pub open spec fn utf8_of(s: Seq<char>) -> Seq<u8>
    decreases s.len(),
{
    if s.len() == 0 {
        Seq::empty()
    } else {
        utf8_of(s.drop_last()) + utf8_bytes(s.last())
    }
}

/// `urlencoding::encode`: the UTF-8 bytes of the text, each percent-encoded
/// unless it is an ASCII letter or digit or one of `-`, `.`, `_`, `~`.
#[verifier::external_body]
fn url_encode(s: &str) -> (r: String)
    ensures
        r@ == percent_bytes(utf8_of(s@)),
{
    urlencoding::encode(s).into_owned()
}

/// The websocket URL of a ComfyUI server for client `client_id` (`wss`
/// over HTTPS), or none when the host is blank or the port is zero.
pub fn comfy_ws_url(https: bool, host: &str, port: u16, client_id: &str) -> (r: Option<String>)
    ensures
        (trim(host@).len() == 0 || port == 0) ==> r is None,
        (trim(host@).len() > 0 && port > 0) ==> (r matches Some(u) && u@ == (if https {
            "wss"@
        } else {
            "ws"@
        }) + "://"@ + host@ + ":"@ + nat_decimal(port as nat) + "/ws?clientId="@ + percent_bytes(utf8_of(client_id@))),
{
    if trim_vec(chars_of(host).as_slice()).len() == 0 || port == 0 {
        return None;
    }
    let scheme = if https {
        "wss"
    } else {
        "ws"
    };
    let encoded = url_encode(client_id);
    let p = u64_decimal_string(port as u64);
    let a = crate::text::cat3(scheme, "://", host);
    let b = crate::text::cat3(a.as_str(), ":", p.as_str());
    Some(crate::text::cat3(b.as_str(), "/ws?clientId=", encoded.as_str()))
}

/// What a message of the server's websocket says.
#[derive(Debug)]
pub enum ComfyWsMessage {
    /// The prompt ids waiting and running.
    Queue { pending: Vec<String>, running: Vec<String> },
    /// Steps done (`value`) of `max` for a prompt.
    Progress { prompt_id: String, value: JsonNumber, max: JsonNumber },
    ExecutionStart { prompt_id: String },
    ExecutionEnd { prompt_id: String },
}

/// The prompt ids of a queue listing: the second item of each entry that
/// is a list whose second item is a string.
pub open spec fn queue_ids(entries: Seq<Json>) -> Seq<Seq<char>>
    decreases entries.len(),
{
    if entries.len() == 0 {
        Seq::empty()
    } else {
        let before = queue_ids(entries.drop_last());
        match entries.last() {
            Json::Arr(a) => if a.len() > 1 {
                match a[1] {
                    Json::Str(s) => before.push(s),
                    _ => before,
                }
            } else {
                before
            },
            _ => before,
        }
    }
}

/// The ids listed under a member, when it is a list.
pub open spec fn listed_ids(j: Option<Json>) -> Seq<Seq<char>> {
    match j {
        Some(Json::Arr(entries)) => queue_ids(entries),
        _ => Seq::empty(),
    }
}

/// The string of an optional value.
pub open spec fn opt_str(j: Option<Json>) -> Option<Seq<char>> {
    match j {
        Some(Json::Str(s)) => Some(s),
        _ => None,
    }
}

/// The member of an optional value.
pub open spec fn opt_member(j: Option<Json>, k: Seq<char>) -> Option<Json> {
    match j {
        Some(v) => member(v, k),
        None => None,
    }
}

/// The value of a message, with ids as text and numbers as they came.
pub enum MessageV {
    Queue { pending: Seq<Seq<char>>, running: Seq<Seq<char>> },
    Progress { prompt_id: Seq<char>, value: crate::json::Num, max: crate::json::Num },
    ExecutionStart { prompt_id: Seq<char> },
    ExecutionEnd { prompt_id: Seq<char> },
}

/// The view of a message.
pub open spec fn message_view(m: ComfyWsMessage) -> MessageV {
    match m {
        ComfyWsMessage::Queue { pending, running } => MessageV::Queue {
            pending: crate::screenplay::strings_view(pending@),
            running: crate::screenplay::strings_view(running@),
        },
        ComfyWsMessage::Progress { prompt_id, value, max } => MessageV::Progress { prompt_id: prompt_id@, value: value@, max: max@ },
        ComfyWsMessage::ExecutionStart { prompt_id } => MessageV::ExecutionStart { prompt_id: prompt_id@ },
        ComfyWsMessage::ExecutionEnd { prompt_id } => MessageV::ExecutionEnd { prompt_id: prompt_id@ },
    }
}

/// What a websocket text message says: a `status` message with a
/// `data.status` lists the queue; a `progress` message with a string
/// `prompt_id` and numbers `value` and `max` gives progress; an
/// `execution_start` or `execution_end` message with a string `prompt_id`
/// gives that; anything else says nothing.
pub open spec fn message_spec(text: Seq<char>) -> Option<MessageV> {
    match parsed_json(text) {
        Ok(v) => {
            let data = member(v, "data"@);
            match opt_str(member(v, "type"@)) {
                Some(t) => if t == "status"@ {
                    match opt_member(data, "status"@) {
                        Some(st) => Some(
                            MessageV::Queue {
                                pending: listed_ids(member(st, "queue_pending"@)),
                                running: listed_ids(member(st, "queue_running"@)),
                            },
                        ),
                        None => None,
                    }
                } else if t == "progress"@ {
                    match (opt_str(opt_member(data, "prompt_id"@)), opt_member(data, "value"@), opt_member(data, "max"@)) {
                        (Some(pid), Some(Json::Number(value)), Some(Json::Number(max))) => Some(
                            MessageV::Progress { prompt_id: pid, value, max },
                        ),
                        _ => None,
                    }
                } else if t == "execution_start"@ {
                    match opt_str(opt_member(data, "prompt_id"@)) {
                        Some(pid) => Some(MessageV::ExecutionStart { prompt_id: pid }),
                        None => None,
                    }
                } else if t == "execution_end"@ {
                    match opt_str(opt_member(data, "prompt_id"@)) {
                        Some(pid) => Some(MessageV::ExecutionEnd { prompt_id: pid }),
                        None => None,
                    }
                } else {
                    None
                },
                None => None,
            }
        },
        Err(_) => None,
    }
}

/// A member of an object value.
fn member_of<'a>(v: &'a JsonValue, k: &str) -> (r: Option<&'a JsonValue>)
    ensures
        crate::json::opt_view(r) == member(v@, k@),
{
    match v {
        JsonValue::Object(e) => obj_get(e, k),
        _ => None,
    }
}

/// The ids of a queue listing; see `listed_ids`.
fn collect_ids(j: Option<&JsonValue>) -> (r: Vec<String>)
    ensures
        crate::screenplay::strings_view(r@) == listed_ids(crate::json::opt_view(j)),
{
    let entries = match j {
        Some(JsonValue::Array(a)) => a,
        _ => {
            let r: Vec<String> = Vec::new();
            assert(crate::screenplay::strings_view(r@) =~= Seq::<Seq<char>>::empty());
            return r;
        },
    };
    let ghost iv = crate::json::view_items(entries@);
    proof {
        lemma_view_items(entries@);
    }
    let mut out: Vec<String> = Vec::new();
    let mut i: usize = 0;
    while i < entries.len()
        invariant
            iv == crate::json::view_items(entries@),
            iv.len() == entries@.len(),
            forall|t: int| 0 <= t < entries@.len() ==> #[trigger] iv[t] == entries@[t]@,
            i <= entries@.len(),
            crate::screenplay::strings_view(out@) == queue_ids(iv.subrange(0, i as int)),
        decreases entries@.len() - i,
    {
        proof {
            let pre = iv.subrange(0, i + 1);
            assert(pre.drop_last() =~= iv.subrange(0, i as int));
            assert(pre.last() == entries@[i as int]@);
        }
        if let JsonValue::Array(a) = &entries[i] {
            proof {
                lemma_view_items(a@);
            }
            if a.len() > 1 {
                if let JsonValue::String(s) = &a[1] {
                    let ghost before = crate::screenplay::strings_view(out@);
                    out.push(s.clone());
                    proof {
                        assert(crate::screenplay::strings_view(out@) =~= before.push(s@));
                    }
                }
            }
        }
        i = i + 1;
    }
    assert(iv.subrange(0, i as int) =~= iv);
    out
}

/// The string of an optional value.
fn str_of(j: Option<&JsonValue>) -> (r: Option<String>)
    ensures
        match r {
            Some(s) => opt_str(crate::json::opt_view(j)) == Some(s@),
            None => opt_str(crate::json::opt_view(j)) is None,
        },
{
    match j {
        Some(JsonValue::String(s)) => Some(s.clone()),
        _ => None,
    }
}

/// The member of an optional value.
fn opt_member_of<'a>(j: Option<&'a JsonValue>, k: &str) -> (r: Option<&'a JsonValue>)
    ensures
        crate::json::opt_view(r) == opt_member(crate::json::opt_view(j), k@),
{
    match j {
        Some(v) => member_of(v, k),
        None => None,
    }
}

/// A websocket text message of the server, read; see `message_spec`.
pub fn parse_comfy_ws_message(text: &str) -> (r: Option<ComfyWsMessage>)
    ensures
        match r {
            Some(m) => message_spec(text@) == Some(message_view(m)),
            None => message_spec(text@) is None,
        },
{
    let v = match parse_json(text) {
        Ok(v) => v,
        Err(_) => {
            return None;
        },
    };
    let data = member_of(&v, "data");
    let t = match str_of(member_of(&v, "type")) {
        Some(t) => t,
        None => {
            return None;
        },
    };
    let tc = chars_of(t.as_str());
    proof {
        reveal_strlit("status");
        reveal_strlit("progress");
        reveal_strlit("execution_start");
        reveal_strlit("execution_end");
    }
    if crate::text::eq_lit(tc.as_slice(), "status") {
        match opt_member_of(data, "status") {
            Some(st) => {
                let pending = collect_ids(member_of(st, "queue_pending"));
                let running = collect_ids(member_of(st, "queue_running"));
                Some(ComfyWsMessage::Queue { pending, running })
            },
            None => None,
        }
    } else if crate::text::eq_lit(tc.as_slice(), "progress") {
        let pid = str_of(opt_member_of(data, "prompt_id"));
        let value = opt_member_of(data, "value");
        let max = opt_member_of(data, "max");
        match (pid, value, max) {
            (Some(pid), Some(JsonValue::Number(value)), Some(JsonValue::Number(max))) => Some(
                ComfyWsMessage::Progress { prompt_id: pid, value: value.clone_num(), max: max.clone_num() },
            ),
            _ => None,
        }
    } else if crate::text::eq_lit(tc.as_slice(), "execution_start") {
        match str_of(opt_member_of(data, "prompt_id")) {
            Some(pid) => Some(ComfyWsMessage::ExecutionStart { prompt_id: pid }),
            None => None,
        }
    } else if crate::text::eq_lit(tc.as_slice(), "execution_end") {
        match str_of(opt_member_of(data, "prompt_id")) {
            Some(pid) => Some(ComfyWsMessage::ExecutionEnd { prompt_id: pid }),
            None => None,
        }
    } else {
        None
    }
}


/// The address of a ComfyUI server's queue: its `/queue`, none for a
/// blank base.
pub fn comfy_queue_url(base: &str) -> (r: Option<String>)
    ensures
        trim(base@).len() == 0 ==> r is None,
        trim(base@).len() > 0 ==> (r matches Some(u) && u@ == crate::cloud_job::strip_trailing_slashes(base@) + "/queue"@),
{
    if trim_vec(chars_of(base).as_slice()).len() == 0 {
        return None;
    }
    let c = chars_of(base);
    let mut j: usize = c.len();
    assert(c@.subrange(0, j as int) =~= c@);
    while j > 0 && c[j - 1] == '/'
        invariant
            j <= c@.len(),
            crate::cloud_job::strip_trailing_slashes(c@) == crate::cloud_job::strip_trailing_slashes(c@.subrange(0, j as int)),
        decreases j,
    {
        assert(c@.subrange(0, j as int).drop_last() =~= c@.subrange(0, j - 1));
        j = j - 1;
    }
    let mut kept: Vec<char> = Vec::new();
    let mut k: usize = 0;
    while k < j
        invariant
            k <= j <= c@.len(),
            kept@ == c@.subrange(0, k as int),
        decreases j - k,
    {
        kept.push(c[k]);
        k = k + 1;
        assert(kept@ =~= c@.subrange(0, k as int));
    }
    let stripped = string_of(kept.as_slice());
    Some(crate::text::cat(stripped.as_str(), "/queue"))
}

/// The prompt ids waiting and running in a `/queue` answer: the prompt
/// ids waiting and running, when the text is JSON.
pub fn parse_comfy_queue(text: &str) -> (r: Option<(Vec<String>, Vec<String>)>)
    ensures
        match parsed_json(text@) {
            Ok(v) => r matches Some(q) && crate::screenplay::strings_view(q.0@) == listed_ids(member(v, "queue_pending"@))
                && crate::screenplay::strings_view(q.1@) == listed_ids(member(v, "queue_running"@)),
            Err(_) => r is None,
        },
{
    match parse_json(text) {
        Ok(v) => {
            let pending = collect_ids(member_of(&v, "queue_pending"));
            let running = collect_ids(member_of(&v, "queue_running"));
            Some((pending, running))
        },
        Err(_) => None,
    }
}

} // verus!
