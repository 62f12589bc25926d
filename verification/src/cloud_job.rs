//! Queueing a job on a cloud ComfyUI backend: the request built from the
//! user's payload (a prompt, or a workflow to convert), every output prefix
//! tagged with the job's short id, and what the backend's answer means.

use vstd::prelude::*;
use crate::comfy_prompt::{convert_result, convert_workflow_to_prompt, text_result};
use crate::json::{
    clone_entries, get, has_key, insert, lemma_view_entries, member, obj_contains_key, obj_get,
    obj_insert, view_entries, Json, JsonValue,
};
use crate::json_text::{parse_json, parsed_json};
use crate::text::{
    chars_of, concat3, contains, contains_exec, string_of, trim, trim_vec, u64_decimal,
    u64_decimal_string,
};

verus! {

/// What the user's payload is.
#[derive(Clone, Copy, Debug, PartialEq, Eq, Structural)]
pub enum CloudTarget {
    /// A `/prompt` payload, or a bare prompt graph.
    Prompt,
    /// A UI workflow document, converted to a prompt first.
    Workflow,
}

/// A request ready to send: where, with which authorization, and the body.
#[derive(Debug)]
pub struct CloudJob {
    pub url: String,
    pub authorization: Option<String>,
    pub body: JsonValue,
}

/// What the backend's answer to a queued job means.
#[derive(Debug)]
pub enum CloudQueueOutcome {
    /// The job was queued under `job_id`; its outputs carry `prefix`.
    Queued { job_id: String, prefix: String },
    /// Nothing to track; the line to log.
    Log(String),
}

/// `client_id.chars().take(8)`.
pub open spec fn short_id(client_id: Seq<char>) -> Seq<char> {
    if client_id.len() <= 8 {
        client_id
    } else {
        client_id.subrange(0, 8)
    }
}

/// `s.trim_end_matches('/')`.
pub open spec fn strip_trailing_slashes(s: Seq<char>) -> Seq<char>
    decreases s.len(),
{
    if s.len() > 0 && s.last() == '/' {
        strip_trailing_slashes(s.drop_last())
    } else {
        s
    }
}

/// The body a prompt payload gives: the payload itself when it has a
/// `prompt` member, else the payload wrapped as the prompt.
pub open spec fn prompt_body(v: Json) -> Json {
    if member(v, "prompt"@) is Some {
        v
    } else {
        Json::Obj(seq![("prompt"@, v)])
    }
}

/// The request body for a payload, before its prefixes are tagged; a
/// converted workflow's own prompt gets client id `id`.
pub open spec fn cloud_body_spec(target: CloudTarget, payload: Seq<char>, id: u128) -> Result<Json, Seq<char>> {
    match target {
        CloudTarget::Prompt => match parsed_json(payload) {
            Ok(v) => Ok(prompt_body(v)),
            Err(e) => Err("Invalid JSON: "@ + e),
        },
        CloudTarget::Workflow => match convert_result(payload, id) {
            Err(e) => Err("Workflow convert failed: "@ + e),
            Ok(t) => match parsed_json(t) {
                Ok(v) => Ok(v),
                Err(e) => Err("Converted workflow parse failed: "@ + e),
            },
        },
    }
}

/// A node's inputs with the output prefix tagged: an empty (or missing)
/// prefix becomes the short id, a prefix without it gets `-` and the short
/// id appended (trimmed), one that has it stays.
pub open spec fn tagged_inputs(e: Seq<(Seq<char>, Json)>, short: Seq<char>) -> Seq<(Seq<char>, Json)> {
    let current = match get(e, "filename_prefix"@) {
        Some(Json::Str(s)) => trim(s),
        _ => Seq::empty(),
    };
    if current.len() == 0 {
        insert(e, "filename_prefix"@, Json::Str(short))
    } else if !contains(current, short) {
        insert(e, "filename_prefix"@, Json::Str(current + "-"@ + short))
    } else {
        e
    }
}

/// A prompt node with its prefix tagged; a node object without inputs gets
/// an empty inputs object first.
pub open spec fn tagged_node(node: Json, short: Seq<char>) -> Json {
    match node {
        Json::Obj(e) => {
            let e2 = if has_key(e, "inputs"@) {
                e
            } else {
                insert(e, "inputs"@, Json::Obj(Seq::empty()))
            };
            match get(e2, "inputs"@) {
                Some(Json::Obj(ie)) => Json::Obj(insert(e2, "inputs"@, Json::Obj(tagged_inputs(ie, short)))),
                _ => Json::Obj(e2),
            }
        },
        _ => node,
    }
}

/// Every node of a prompt tagged.
pub open spec fn tagged_prompt(p: Seq<(Seq<char>, Json)>, short: Seq<char>) -> Seq<(Seq<char>, Json)>
    decreases p.len(),
{
    if p.len() == 0 {
        p
    } else {
        tagged_prompt(p.drop_last(), short).push((p.last().0, tagged_node(p.last().1, short)))
    }
}

/// A body whose prompt is an object, with every node tagged.
pub open spec fn tagged_body(body: Json, short: Seq<char>) -> Json {
    match body {
        Json::Obj(e) => match get(e, "prompt"@) {
            Some(Json::Obj(p)) => Json::Obj(insert(e, "prompt"@, Json::Obj(tagged_prompt(p, short)))),
            _ => body,
        },
        _ => body,
    }
}

/// The body with a client id: kept when it has a non-blank one, else set
/// (on an object body).
pub open spec fn with_client_id(body: Json, client_id: Seq<char>) -> Json {
    let has_id = match member(body, "client_id"@) {
        Some(Json::Str(s)) => trim(s).len() > 0,
        _ => false,
    };
    if has_id {
        body
    } else {
        match body {
            Json::Obj(e) => Json::Obj(insert(e, "client_id"@, Json::Str(client_id))),
            _ => body,
        }
    }
}

/// The body that is sent: tagged with the short id, with a client id.
pub open spec fn finished_body(body: Json, client_id: Seq<char>) -> Json {
    with_client_id(tagged_body(body, short_id(client_id)), client_id)
}

/// A node's non-blank output prefix, trimmed.
pub open spec fn node_prefix(node: Json) -> Option<Seq<char>> {
    match node {
        Json::Obj(e) => match get(e, "inputs"@) {
            Some(Json::Obj(ie)) => match get(ie, "filename_prefix"@) {
                Some(Json::Str(s)) => if trim(s).len() > 0 {
                    Some(trim(s))
                } else {
                    None
                },
                _ => None,
            },
            _ => None,
        },
        _ => None,
    }
}

/// The first node prefix of a prompt.
pub open spec fn first_prefix(p: Seq<(Seq<char>, Json)>) -> Option<Seq<char>>
    decreases p.len(),
{
    if p.len() == 0 {
        None
    } else {
        match first_prefix(p.drop_last()) {
            Some(x) => Some(x),
            None => node_prefix(p.last().1),
        }
    }
}

/// The prefix a sent job's outputs carry: the first node prefix, else the
/// client id.
pub open spec fn prefix_used(body: Json, client_id: Seq<char>) -> Seq<char> {
    match member(body, "prompt"@) {
        Some(Json::Obj(p)) => match first_prefix(p) {
            Some(x) => x,
            None => client_id,
        },
        _ => client_id,
    }
}

/// The job id of an answer: its `prompt_id`, else `job_id`, else `id`
/// member (the first present), if that is a string; else empty.
pub open spec fn answer_job_id(v: Json) -> Seq<char> {
    let m = if member(v, "prompt_id"@) is Some {
        member(v, "prompt_id"@)
    } else if member(v, "job_id"@) is Some {
        member(v, "job_id"@)
    } else {
        member(v, "id"@)
    };
    match m {
        Some(Json::Str(s)) => s,
        _ => Seq::empty(),
    }
}

/// `s.trim_end_matches('/')`.
fn strip_trailing_slashes_exec(s: &Vec<char>) -> (r: Vec<char>)
    ensures
        r@ == strip_trailing_slashes(s@),
{
    let mut j: usize = s.len();
    assert(s@.subrange(0, j as int) =~= s@);
    while j > 0 && s[j - 1] == '/'
        invariant
            j <= s@.len(),
            strip_trailing_slashes(s@) == strip_trailing_slashes(s@.subrange(0, j as int)),
        decreases j,
    {
        assert(s@.subrange(0, j as int).drop_last() =~= s@.subrange(0, j - 1));
        j = j - 1;
    }
    let mut r: Vec<char> = Vec::new();
    let mut k: usize = 0;
    while k < j
        invariant
            k <= j <= s@.len(),
            r@ == s@.subrange(0, k as int),
        decreases j - k,
    {
        r.push(s[k]);
        k = k + 1;
        assert(r@ =~= s@.subrange(0, k as int));
    }
    proof {
        if j == s@.len() {
            assert(s@.subrange(0, j as int) =~= s@);
        }
    }
    r
}

/// The first eight characters of a client id.
pub fn short_client_id(client_id: &str) -> (r: String)
    ensures
        r@ == short_id(client_id@),
{
    let c = chars_of(client_id);
    let mut out: Vec<char> = Vec::new();
    let mut i: usize = 0;
    while i < c.len() && i < 8
        invariant
            c@ == client_id@,
            i <= c@.len(),
            i <= 8,
            out@ == c@.subrange(0, i as int),
        decreases c@.len() - i,
    {
        out.push(c[i]);
        i = i + 1;
        assert(out@ =~= c@.subrange(0, i as int));
    }
    proof {
        if c@.len() <= 8 {
            assert(out@ =~= c@);
        }
    }
    string_of(out.as_slice())
}

/// A node's inputs with the output prefix tagged; see `tagged_inputs`.
fn tag_inputs(e: &mut Vec<(String, JsonValue)>, short: &str)
    ensures
        view_entries(final(e)@) == tagged_inputs(view_entries(old(e)@), short@),
{
    let current: Vec<char> = match obj_get(e, "filename_prefix") {
        Some(JsonValue::String(s)) => trim_vec(chars_of(s.as_str()).as_slice()),
        _ => Vec::new(),
    };
    let sc = chars_of(short);
    if current.len() == 0 {
        obj_insert(e, String::from_str("filename_prefix"), JsonValue::String(String::from_str(short)));
    } else if !contains_exec(current.as_slice(), sc.as_slice()) {
        let dash = chars_of("-");
        let joined = concat3(current.as_slice(), dash.as_slice(), sc.as_slice());
        obj_insert(e, String::from_str("filename_prefix"), JsonValue::String(string_of(joined.as_slice())));
    }
}

/// A prompt node with its prefix tagged; see `tagged_node`.
fn tag_node(node: JsonValue, short: &str) -> (r: JsonValue)
    ensures
        r@ == tagged_node(node@, short@),
{
    match node {
        JsonValue::Object(mut e) => {
            if !obj_contains_key(&e, "inputs") {
                obj_insert(&mut e, String::from_str("inputs"), JsonValue::Object(Vec::new()));
            }
            let tagged = match obj_get(&e, "inputs") {
                Some(JsonValue::Object(ie)) => {
                    let mut copy = clone_entries(ie);
                    tag_inputs(&mut copy, short);
                    Some(copy)
                },
                _ => None,
            };
            match tagged {
                Some(t) => {
                    obj_insert(&mut e, String::from_str("inputs"), JsonValue::Object(t));
                    JsonValue::Object(e)
                },
                None => JsonValue::Object(e),
            }
        },
        other => other,
    }
}

/// Every node of a prompt tagged; see `tagged_prompt`.
fn tag_prompt(p: Vec<(String, JsonValue)>, short: &str) -> (r: Vec<(String, JsonValue)>)
    ensures
        view_entries(r@) == tagged_prompt(view_entries(p@), short@),
{
    let ghost orig = p@;
    let ghost n = orig.len();
    let total = p.len();
    let mut rest = p;
    let mut out: Vec<(String, JsonValue)> = Vec::new();
    let mut i: usize = 0;
    while rest.len() > 0
        invariant
            i <= n,
            n == orig.len(),
            total == n,
            rest@ == orig.subrange(i as int, n as int),
            view_entries(out@) == tagged_prompt(view_entries(orig.subrange(0, i as int)), short@),
        decreases rest@.len(),
    {
        let (k, v) = rest.remove(0);
        proof {
            let pre = orig.subrange(0, i + 1);
            assert(pre.drop_last() =~= orig.subrange(0, i as int));
            assert(view_entries(pre).drop_last() =~= view_entries(orig.subrange(0, i as int)));
            lemma_view_entries(pre);
            assert(view_entries(pre).last() == (k@, v@));
        }
        let ghost old_out = out@;
        let ghost kv = k@;
        let tv = tag_node(v, short);
        out.push((k, tv));
        proof {
            assert(out@.drop_last() =~= old_out);
        }
        i = i + 1;
        assert(rest@ =~= orig.subrange(i as int, n as int));
    }
    assert(orig.subrange(0, n as int) =~= orig);
    out
}

/// `cloud_request_body`'s prompt case: the payload, wrapped as the prompt
/// unless it has one.
fn prompt_payload_body(payload: &str) -> (r: Result<JsonValue, String>)
    ensures
        match parsed_json(payload@) {
            Ok(v) => r matches Ok(b) && b@ == prompt_body(v),
            Err(e) => r matches Err(m) && m@ == "Invalid JSON: "@ + e,
        },
{
    match parse_json(payload) {
        Ok(v) => {
            let has_prompt = match &v {
                JsonValue::Object(e) => obj_contains_key(e, "prompt"),
                _ => false,
            };
            if has_prompt {
                Ok(v)
            } else {
                let ghost vv = v@;
                let wrapped = vec![(String::from_str("prompt"), v)];
                proof {
                    lemma_view_entries(wrapped@);
                    assert(view_entries(wrapped@) =~= seq![("prompt"@, vv)]);
                }
                Ok(JsonValue::Object(wrapped))
            }
        },
        Err(e) => Err(crate::text::cat("Invalid JSON: ", e.as_str())),
    }
}

/// The request body for a payload, before its prefixes are tagged: a prompt
/// payload (wrapped as the prompt unless it has one), or a workflow
/// converted to a `/prompt` payload (whose own prompt gets a random client
/// id), with the reason when neither can be read.
pub fn cloud_request_body(payload: &str, target: CloudTarget) -> (r: Result<JsonValue, String>)
    ensures
        exists|id: u128| #[trigger] cloud_body_spec(target, payload@, id) == match r {
            Ok(b) => Ok(b@),
            Err(m) => Err(m@),
        },
{
    match target {
        CloudTarget::Prompt => {
            let r = prompt_payload_body(payload);
            assert(cloud_body_spec(target, payload@, 0) == match r {
                Ok(b) => Ok(b@),
                Err(m) => Err(m@),
            });
            r
        },
        CloudTarget::Workflow => {
            let converted = convert_workflow_to_prompt(payload);
            let ghost id = choose|id: u128| text_result(converted) == convert_result(payload@, id);
            let r = match converted {
                Err(e) => Err(crate::text::cat("Workflow convert failed: ", e.as_str())),
                Ok(s) => match parse_json(s.as_str()) {
                    Ok(v) => Ok(v),
                    Err(e) => Err(crate::text::cat("Converted workflow parse failed: ", e.as_str())),
                },
            };
            assert(cloud_body_spec(target, payload@, id) == match r {
                Ok(b) => Ok(b@),
                Err(m) => Err(m@),
            });
            r
        },
    }
}

/// The body that is sent: every prompt node's output prefix tagged with the
/// client id's first eight characters, and the client id set unless the
/// body has a non-blank one.
pub fn finish_cloud_body(body: JsonValue, client_id: &str) -> (r: JsonValue)
    ensures
        r@ == finished_body(body@, client_id@),
{
    let short = short_client_id(client_id);
    let tagged = match body {
        JsonValue::Object(mut e) => {
            let prompt = match obj_get(&e, "prompt") {
                Some(JsonValue::Object(p)) => Some(clone_entries(p)),
                _ => None,
            };
            match prompt {
                Some(p) => {
                    let t = tag_prompt(p, short.as_str());
                    obj_insert(&mut e, String::from_str("prompt"), JsonValue::Object(t));
                    JsonValue::Object(e)
                },
                None => JsonValue::Object(e),
            }
        },
        other => other,
    };
    let has_id = match &tagged {
        JsonValue::Object(e) => match obj_get(e, "client_id") {
            Some(JsonValue::String(s)) => trim_vec(chars_of(s.as_str()).as_slice()).len() > 0,
            _ => false,
        },
        _ => false,
    };
    if has_id {
        tagged
    } else {
        match tagged {
            JsonValue::Object(mut e) => {
                obj_insert(&mut e, String::from_str("client_id"), JsonValue::String(String::from_str(client_id)));
                JsonValue::Object(e)
            },
            other => other,
        }
    }
}

/// The outcome of preparing a job from a body outcome: the body finished
/// for the client, or the same error.
pub open spec fn job_follows(r: Result<CloudJob, String>, body: Result<Json, Seq<char>>, client_id: Seq<char>) -> bool {
    match body {
        Ok(b) => r matches Ok(job) && job.body@ == finished_body(b, client_id),
        Err(e) => r matches Err(m) && m@ == e,
    }
}

/// The request for a cloud job, or why none can be sent: the base URL and
/// the payload must not be blank; the URL is the base's `/prompt`, the key
/// (when not blank) a bearer token, and the body the payload's, finished for
/// client `client_id` (see `finish_cloud_body`).
pub fn prepare_cloud_job(base: &str, api_key: &str, payload: &str, target: CloudTarget, client_id: &str) -> (r: Result<CloudJob, String>)
    ensures
        trim(base@).len() == 0 ==> (r matches Err(m) && m@ == "Base URL not set"@),
        trim(base@).len() > 0 && trim(payload@).len() == 0 ==> (r matches Err(m) && m@ == "Payload is empty"@),
        trim(base@).len() > 0 && trim(payload@).len() > 0 ==> exists|id: u128| #[trigger] job_follows(r, cloud_body_spec(target, payload@, id), client_id@),
        r matches Ok(job) ==> {
            &&& job.url@ == strip_trailing_slashes(trim(base@)) + "/prompt"@
            &&& match job.authorization {
                Some(a) => trim(api_key@).len() > 0 && a@ == "Bearer "@ + api_key@,
                None => trim(api_key@).len() == 0,
            }
        },
{
    let b = trim_vec(chars_of(base).as_slice());
    if b.len() == 0 {
        return Err(String::from_str("Base URL not set"));
    }
    if trim_vec(chars_of(payload).as_slice()).len() == 0 {
        return Err(String::from_str("Payload is empty"));
    }
    let stripped = strip_trailing_slashes_exec(&b);
    let url_chars = crate::text::concat_chars(stripped.as_slice(), chars_of("/prompt").as_slice());
    let url = string_of(url_chars.as_slice());
    let authorization = if trim_vec(chars_of(api_key).as_slice()).len() == 0 {
        None
    } else {
        Some(crate::text::cat("Bearer ", api_key))
    };
    let body = cloud_request_body(payload, target);
    let ghost id = choose|id: u128| #[trigger] cloud_body_spec(target, payload@, id) == match body {
        Ok(b) => Ok(b@),
        Err(m) => Err(m@),
    };
    let r = match body {
        Ok(v) => {
            let finished = finish_cloud_body(v, client_id);
            Ok(CloudJob { url, authorization, body: finished })
        },
        Err(e) => Err(e),
    };
    assert(job_follows(r, cloud_body_spec(target, payload@, id), client_id@));
    r
}

/// The first node prefix of a prompt; see `first_prefix`.
fn find_first_prefix(p: &Vec<(String, JsonValue)>) -> (r: Option<String>)
    ensures
        match r {
            Some(s) => first_prefix(view_entries(p@)) == Some(s@),
            None => first_prefix(view_entries(p@)) is None,
        },
{
    let ghost ev = view_entries(p@);
    proof {
        lemma_view_entries(p@);
    }
    let mut i: usize = 0;
    while i < p.len()
        invariant
            ev == view_entries(p@),
            ev.len() == p@.len(),
            forall|t: int| 0 <= t < p@.len() ==> #[trigger] ev[t] == (p@[t].0@, p@[t].1.view()),
            i <= p@.len(),
            first_prefix(ev.subrange(0, i as int)) is None,
        decreases p@.len() - i,
    {
        let ghost pre = ev.subrange(0, i + 1);
        assert(pre.drop_last() =~= ev.subrange(0, i as int));
        assert(pre.last() == ev[i as int]);
        let found: Option<String> = match &p[i].1 {
            JsonValue::Object(e) => match obj_get(e, "inputs") {
                Some(JsonValue::Object(ie)) => match obj_get(ie, "filename_prefix") {
                    Some(JsonValue::String(s)) => {
                        let t = trim_vec(chars_of(s.as_str()).as_slice());
                        if t.len() > 0 {
                            Some(string_of(t.as_slice()))
                        } else {
                            None
                        }
                    },
                    _ => None,
                },
                _ => None,
            },
            _ => None,
        };
        if found.is_some() {
            proof {
                lemma_first_prefix_prefix(ev, i + 1);
            }
            return found;
        }
        i = i + 1;
    }
    assert(ev.subrange(0, i as int) =~= ev);
    None
}

proof fn lemma_first_prefix_prefix(s: Seq<(Seq<char>, Json)>, k: int)
    requires
        0 <= k <= s.len(),
        first_prefix(s.subrange(0, k)) is Some,
    ensures
        first_prefix(s) == first_prefix(s.subrange(0, k)),
    decreases s.len() - k,
{
    if k < s.len() {
        assert(s.subrange(0, k + 1).drop_last() =~= s.subrange(0, k));
        lemma_first_prefix_prefix(s, k + 1);
    } else {
        assert(s.subrange(0, k) =~= s);
    }
}

/// The prefix a sent job's outputs carry; see `prefix_used`.
pub fn job_prefix_used(body: &JsonValue, client_id: &str) -> (r: String)
    ensures
        r@ == prefix_used(body@, client_id@),
{
    let found = match body {
        JsonValue::Object(e) => match obj_get(e, "prompt") {
            Some(JsonValue::Object(p)) => find_first_prefix(p),
            _ => None,
        },
        _ => None,
    };
    match found {
        Some(s) => s,
        None => String::from_str(client_id),
    }
}

/// The job id an answer's text gives, when it is JSON; see `answer_job_id`.
fn answer_id(text: &str) -> (r: Option<String>)
    ensures
        match parsed_json(text@) {
            Ok(v) => r matches Some(s) && s@ == answer_job_id(v),
            Err(_) => r is None,
        },
{
    match parse_json(text) {
        Ok(v) => {
            let m: Option<&JsonValue> = match &v {
                JsonValue::Object(e) => {
                    if obj_contains_key(e, "prompt_id") {
                        obj_get(e, "prompt_id")
                    } else if obj_contains_key(e, "job_id") {
                        obj_get(e, "job_id")
                    } else {
                        obj_get(e, "id")
                    }
                },
                _ => None,
            };
            match m {
                Some(JsonValue::String(s)) => Some(s.clone()),
                _ => Some(String::new()),
            }
        },
        Err(_) => None,
    }
}

/// What an HTTP answer to a sent job means: on a 2xx status with a JSON body
/// naming a non-empty job id, the job is queued under it with the prefix
/// its outputs carry (see `prefix_used`); otherwise the line to log, which
/// for any other status holds the status and the body.
pub fn cloud_queue_outcome(status: u16, body: Option<String>, sent: &JsonValue, client_id: &str) -> (r: CloudQueueOutcome)
    ensures
        200 <= status < 300 ==> match body {
            Some(text) => match parsed_json(text@) {
                Ok(v) => if answer_job_id(v).len() > 0 {
                    r matches CloudQueueOutcome::Queued { job_id, prefix } && job_id@ == answer_job_id(v) && prefix@
                        == prefix_used(sent@, client_id@)
                } else {
                    r matches CloudQueueOutcome::Log(m) && m@ == "Job queued (no id in response)"@
                },
                Err(_) => r matches CloudQueueOutcome::Log(m) && m@ == "Job queued (non-JSON response)"@,
            },
            None => r matches CloudQueueOutcome::Log(m) && m@ == "Job queued (no body)"@,
        },
        !(200 <= status < 300) ==> (r matches CloudQueueOutcome::Log(m) && m@ == "Queue failed: HTTP "@ + u64_decimal(
            status as u64,
        ) + "\n"@ + match body {
            Some(t) => t@,
            None => Seq::<char>::empty(),
        }),
{
    if 200 <= status && status < 300 {
        match body {
            Some(text) => match answer_id(text.as_str()) {
                Some(id) => {
                    if chars_of(id.as_str()).len() > 0 {
                        let prefix = job_prefix_used(sent, client_id);
                        CloudQueueOutcome::Queued { job_id: id, prefix }
                    } else {
                        CloudQueueOutcome::Log(String::from_str("Job queued (no id in response)"))
                    }
                },
                None => CloudQueueOutcome::Log(String::from_str("Job queued (non-JSON response)")),
            },
            None => CloudQueueOutcome::Log(String::from_str("Job queued (no body)")),
        }
    } else {
        let code = u64_decimal_string(status as u64);
        let text = match body {
            Some(t) => t,
            None => String::new(),
        };
        let head = crate::text::cat3("Queue failed: HTTP ", code.as_str(), "\n");
        CloudQueueOutcome::Log(crate::text::cat(head.as_str(), text.as_str()))
    }
}

} // verus!
