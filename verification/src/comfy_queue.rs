//! Sending a storyboard card to a local ComfyUI server: what must hold
//! before it is queued, which file inputs are taken along, the API key in
//! the request, and what the server's answer means.

use vstd::prelude::*;
use crate::board::{first_workflow, Storyboard};
use crate::json::{get, insert, obj_get, obj_insert, obj_remove, remove, view_entries, Json, JsonValue};
use crate::json_text::{parse_json, parsed_json};
use crate::keyed_map::KeyedMap;
use crate::storyboard::{StoryboardCard, StoryboardWorkflowOutputKind};
use crate::text::{chars_of, string_of, trim, trim_vec, u64_decimal, u64_decimal_string};
use crate::workflow_input::StoryboardInputValue;

verus! {

/// What sending a card needs: the workflow it uses, and whether its
/// reference image is copied to the server.
#[derive(Clone, Copy, Debug, PartialEq, Eq, Structural)]
pub struct QueuePlan {
    pub preset_index: usize,
    pub copy_reference: bool,
}

/// A workflow whose outputs include video needs a reference image.
pub open spec fn needs_reference(k: StoryboardWorkflowOutputKind) -> bool {
    k == StoryboardWorkflowOutputKind::Video || k == StoryboardWorkflowOutputKind::ImageAndVideo
}

/// The checks before a card is sent to ComfyUI, in order: the card exists, the
/// server is reachable, the card has a workflow, the storyboard still has
/// it (the first with its id), and a workflow with video outputs has a
/// reference that exists. The reference is copied when it exists.
pub open spec fn queue_plan_spec(board: Storyboard, idx: int, server_reachable: bool, reference_exists: bool) -> Result<QueuePlan, Seq<char>> {
    if idx >= board.cards@.len() {
        Err("Invalid storyboard card"@)
    } else if !server_reachable {
        Err("ComfyUI server not reachable. Start ComfyUI and try again."@)
    } else {
        let card = board.cards@[idx];
        match card.workflow_id {
            None => Err("Select a workflow before queuing."@),
            Some(w) => match first_workflow(board.workflows@, w) {
                None => Err("Selected workflow is no longer available."@),
                Some(p) => {
                    let required = needs_reference(board.workflows@[p].output_kind);
                    if trim(card.reference_path@).len() == 0 {
                        if required {
                            Err("Reference path is empty."@)
                        } else {
                            Ok(QueuePlan { preset_index: p as usize, copy_reference: false })
                        }
                    } else if !reference_exists && required {
                        Err("Reference path does not exist."@)
                    } else {
                        Ok(QueuePlan { preset_index: p as usize, copy_reference: reference_exists })
                    }
                },
            },
        }
    }
}

impl Storyboard {
    /// Plans sending a card to ComfyUI: the workflow to
    /// use and whether the reference is copied, or why the card cannot be
    /// queued (see `queue_plan_spec`). The caller says whether the server
    /// answers and whether the card's trimmed reference path exists.
    pub fn storyboard_queue_plan(&self, idx: usize, server_reachable: bool, reference_exists: bool) -> (r: Result<QueuePlan, String>)
        ensures
            match queue_plan_spec(*self, idx as int, server_reachable, reference_exists) {
                Ok(plan) => r == Ok::<QueuePlan, String>(plan),
                Err(m) => r matches Err(e) && e@ == m,
            },
    {
        if idx >= self.cards.len() {
            return Err(String::from_str("Invalid storyboard card"));
        }
        if !server_reachable {
            return Err(String::from_str("ComfyUI server not reachable. Start ComfyUI and try again."));
        }
        let card = &self.cards[idx];
        let w = match card.workflow_id {
            Some(w) => w,
            None => {
                return Err(String::from_str("Select a workflow before queuing."));
            },
        };
        let p = match find_first_workflow(&self.workflows, w) {
            Some(p) => p,
            None => {
                return Err(String::from_str("Selected workflow is no longer available."));
            },
        };
        let kind = self.workflows[p].output_kind;
        let required = kind == StoryboardWorkflowOutputKind::Video || kind == StoryboardWorkflowOutputKind::ImageAndVideo;
        let reference = trim_vec(chars_of(card.reference_path.as_str()).as_slice());
        if reference.len() == 0 {
            if required {
                return Err(String::from_str("Reference path is empty."));
            }
            return Ok(QueuePlan { preset_index: p, copy_reference: false });
        }
        if !reference_exists && required {
            return Err(String::from_str("Reference path does not exist."));
        }
        Ok(QueuePlan { preset_index: p, copy_reference: reference_exists })
    }
}

/// The index of the first workflow with id `id`.
fn find_first_workflow(ws: &Vec<crate::storyboard::StoryboardWorkflowPreset>, id: u128) -> (r: Option<usize>)
    ensures
        match r {
            Some(i) => first_workflow(ws@, id) == Some(i as int) && i < ws@.len(),
            None => first_workflow(ws@, id) is None,
        },
{
    let mut i: usize = 0;
    while i < ws.len()
        invariant
            i <= ws@.len(),
            first_workflow(ws@.subrange(0, i as int), id) is None,
        decreases ws@.len() - i,
    {
        assert(ws@.subrange(0, i + 1).drop_last() =~= ws@.subrange(0, i as int));
        if ws[i].id == id {
            proof {
                lemma_first_workflow_extends(ws@, id, i + 1);
            }
            return Some(i);
        }
        i = i + 1;
    }
    assert(ws@.subrange(0, i as int) =~= ws@);
    None
}

proof fn lemma_first_workflow_extends(ws: Seq<crate::storyboard::StoryboardWorkflowPreset>, id: u128, k: int)
    requires
        0 <= k <= ws.len(),
        first_workflow(ws.subrange(0, k), id) is Some,
    ensures
        first_workflow(ws, id) == first_workflow(ws.subrange(0, k), id),
    decreases ws.len() - k,
{
    if k < ws.len() {
        assert(ws.subrange(0, k + 1).drop_last() =~= ws.subrange(0, k));
        lemma_first_workflow_extends(ws, id, k + 1);
    } else {
        assert(ws.subrange(0, k) =~= ws);
    }
}

/// The file inputs of a card's members with a non-blank path, each with
/// its trimmed path, in order.
pub open spec fn file_inputs(members: Seq<(String, StoryboardInputValue)>) -> Seq<(Seq<char>, Seq<char>)>
    decreases members.len(),
{
    if members.len() == 0 {
        Seq::empty()
    } else {
        let before = file_inputs(members.drop_last());
        match members.last().1 {
            StoryboardInputValue::File(p) => if trim(p@).len() > 0 {
                before.push((members.last().0@, trim(p@)))
            } else {
                before
            },
            _ => before,
        }
    }
}

/// The pairs of a list of string pairs.
pub open spec fn pairs_view(v: Seq<(String, String)>) -> Seq<(Seq<char>, Seq<char>)> {
    v.map_values(|p: (String, String)| (p.0@, p.1@))
}

/// The file inputs sent with a card: each input of the card that
/// holds a file path that is not blank, with the trimmed path (which is
/// copied to the server when it names a file, else passed as it is).
pub fn storyboard_file_inputs(card: &StoryboardCard) -> (r: Vec<(String, String)>)
    ensures
        pairs_view(r@) == file_inputs(card.workflow_inputs.members()),
{
    let inputs = &card.workflow_inputs;
    let n = inputs.len();
    let ghost members = inputs.members();
    let mut out: Vec<(String, String)> = Vec::new();
    let mut i: usize = 0;
    while i < n
        invariant
            n == members.len(),
            members == inputs.members(),
            i <= n,
            pairs_view(out@) == file_inputs(members.subrange(0, i as int)),
        decreases n - i,
    {
        let (k, v) = inputs.member_at(i);
        proof {
            assert(members.subrange(0, i + 1).drop_last() =~= members.subrange(0, i as int));
        }
        if let StoryboardInputValue::File(p) = v {
            let t = trim_vec(chars_of(p.as_str()).as_slice());
            if t.len() > 0 {
                let ghost before = pairs_view(out@);
                out.push((k.clone(), string_of(t.as_slice())));
                proof {
                    assert(pairs_view(out@) =~= before.push((k@, trim(p@))));
                }
            }
        }
        i = i + 1;
    }
    assert(members.subrange(0, n as int) =~= members);
    out
}

/// The request's extra data with the API key: an object body gets an
/// `extra_data` object (when it has none), whose `api_key_comfy_org` is the
/// trimmed key, or is dropped for a blank key.
pub open spec fn with_api_key(body: Json, api_key: Seq<char>) -> Json {
    match body {
        Json::Obj(e) => {
            let e2 = if get(e, "extra_data"@) is Some {
                e
            } else {
                insert(e, "extra_data"@, Json::Obj(Seq::empty()))
            };
            match get(e2, "extra_data"@) {
                Some(Json::Obj(x)) => Json::Obj(
                    insert(
                        e2,
                        "extra_data"@,
                        Json::Obj(
                            if trim(api_key).len() == 0 {
                                remove(x, "api_key_comfy_org"@)
                            } else {
                                insert(x, "api_key_comfy_org"@, Json::Str(trim(api_key)))
                            },
                        ),
                    ),
                ),
                _ => Json::Obj(e2),
            }
        },
        _ => body,
    }
}

/// Puts the ComfyUI API key into a request; see
/// `with_api_key`.
pub fn attach_comfy_api_key(body: JsonValue, api_key: &str) -> (r: JsonValue)
    ensures
        r@ == with_api_key(body@, api_key@),
{
    match body {
        JsonValue::Object(mut e) => {
            if obj_get(&e, "extra_data").is_none() {
                obj_insert(&mut e, String::from_str("extra_data"), JsonValue::Object(Vec::new()));
            }
            let extra = match obj_get(&e, "extra_data") {
                Some(JsonValue::Object(x)) => Some(crate::json::clone_entries(x)),
                _ => None,
            };
            match extra {
                Some(mut x) => {
                    let key = trim_vec(chars_of(api_key).as_slice());
                    if key.len() == 0 {
                        obj_remove(&mut x, "api_key_comfy_org");
                    } else {
                        obj_insert(&mut x, String::from_str("api_key_comfy_org"), JsonValue::String(string_of(key.as_slice())));
                    }
                    obj_insert(&mut e, String::from_str("extra_data"), JsonValue::Object(x));
                    JsonValue::Object(e)
                },
                None => JsonValue::Object(e),
            }
        },
        other => other,
    }
}

/// `comfy_authorization_header`: the `Authorization` header for a ComfyUI
/// key, `Bearer ` and the trimmed key, or none when the key is blank.
pub fn comfy_authorization_header(api_key: &str) -> (r: Option<String>)
    ensures
        trim(api_key@).len() == 0 ==> r is None,
        trim(api_key@).len() > 0 ==> (r matches Some(h) && h@ == "Bearer "@ + trim(api_key@)),
{
    let key = trim_vec(chars_of(api_key).as_slice());
    if key.len() == 0 {
        None
    } else {
        let h = crate::text::concat_chars(chars_of("Bearer ").as_slice(), key.as_slice());
        Some(string_of(h.as_slice()))
    }
}

/// The prompt id of a server's answer: its `prompt_id` string member, when
/// the text is not blank and is JSON.
pub open spec fn answer_prompt_id(text: Seq<char>) -> Option<Seq<char>> {
    if trim(text).len() == 0 {
        None
    } else {
        match parsed_json(text) {
            Ok(Json::Obj(e)) => match get(e, "prompt_id"@) {
                Some(Json::Str(s)) => Some(s),
                _ => None,
            },
            _ => None,
        }
    }
}

/// The prompt id in a ComfyUI server's answer; see
/// `answer_prompt_id`.
pub fn comfy_prompt_id(text: &str) -> (r: Option<String>)
    ensures
        match r {
            Some(s) => answer_prompt_id(text@) == Some(s@),
            None => answer_prompt_id(text@) is None,
        },
{
    if trim_vec(chars_of(text).as_slice()).len() == 0 {
        return None;
    }
    match parse_json(text) {
        Ok(JsonValue::Object(e)) => match obj_get(&e, "prompt_id") {
            Some(JsonValue::String(s)) => Some(s.clone()),
            _ => None,
        },
        _ => None,
    }
}

/// What a refused request is answered: the error, and for a 401 or 403 a
/// warning about the API key (missing when none is stored, else rejected).
pub fn comfy_queue_failure(code: u16, text: &str, api_key: &str) -> (r: (String, Option<String>))
    ensures
        r.0@ == "ComfyUI "@ + u64_decimal(code as u64) + ": "@ + text@,
        (code == 401 || code == 403) ==> (r.1 matches Some(w) && w@ == if trim(api_key@).len() == 0 {
            "Comfy.org API key required. Enter it in ComfyUI settings."@
        } else {
            "Comfy.org rejected the stored API key. Re-enter it in ComfyUI settings."@
        }),
        !(code == 401 || code == 403) ==> r.1 is None,
{
    let c = u64_decimal_string(code as u64);
    let head = crate::text::cat3("ComfyUI ", c.as_str(), ": ");
    let err = crate::text::cat(head.as_str(), text);
    let warning = if code == 401 || code == 403 {
        if trim_vec(chars_of(api_key).as_slice()).len() == 0 {
            Some(String::from_str("Comfy.org API key required. Enter it in ComfyUI settings."))
        } else {
            Some(String::from_str("Comfy.org rejected the stored API key. Re-enter it in ComfyUI settings."))
        }
    } else {
        None
    };
    (err, warning)
}


impl Storyboard {
    /// Records the outcome of sending card `idx`: the card's
    /// workflow error is cleared on success or set to the error; a failure
    /// is returned with the card's title (or `Card n` when there is no such
    /// card).
    pub fn storyboard_record_queue_result(&mut self, idx: usize, result: Result<(), String>) -> (r: Option<(String, String)>)
        requires
            idx < usize::MAX,
        ensures
            final(self).cards@.len() == old(self).cards@.len(),
            final(self).selected == old(self).selected,
            final(self).workflows == old(self).workflows,
            forall|j: int| 0 <= j < old(self).cards@.len() && j != idx ==> #[trigger] final(self).cards@[j] == old(self).cards@[j],
            idx < old(self).cards@.len() ==> {
                let before = old(self).cards@[idx as int];
                let after = final(self).cards@[idx as int];
                &&& crate::screenplay::opt_string_view(after.workflow_error) == match result {
                    Ok(_) => None,
                    Err(e) => Some(e@),
                }
                &&& after.id == before.id && after.title == before.title && after.description == before.description
                &&& after.reference_path == before.reference_path && after.duration_seconds == before.duration_seconds
                &&& after.preview_error == before.preview_error && after.workflow_id == before.workflow_id
                &&& after.workflow_status == before.workflow_status && after.video_settings == before.video_settings
                &&& after.output_kind == before.output_kind && after.workflow_inputs == before.workflow_inputs
                &&& after.workflow_input_errors == before.workflow_input_errors
            },
            match result {
                Ok(_) => r is None,
                Err(e) => r matches Some(f) && f.1@ == e@ && f.0@ == if idx < old(self).cards@.len() {
                    old(self).cards@[idx as int].title@
                } else {
                    "Card "@ + crate::text::nat_decimal((idx + 1) as nat)
                },
            },
    {
        if idx < self.cards.len() {
            let mut card = self.cards.remove(idx);
            let r = match result {
                Ok(_) => {
                    card.workflow_error = None;
                    None
                },
                Err(e) => {
                    card.workflow_error = Some(e.clone());
                    Some((card.title.clone(), e))
                },
            };
            self.cards.insert(idx, card);
            r
        } else {
            match result {
                Ok(_) => None,
                Err(e) => Some((crate::text::cat("Card ", u64_decimal_string((idx + 1) as u64).as_str()), e)),
            }
        }
    }
}

/// What a batch of sends is reported with.
#[derive(Debug)]
pub struct BatchSummary {
    /// The line logged in every case.
    pub log: String,
    /// The notice when any card was queued.
    pub queued_alert: Option<String>,
    /// The warning when any card was skipped.
    pub skipped_alert: Option<String>,
    /// A line for each of the first eight skipped cards.
    pub skipped_lines: Vec<String>,
}

/// The titles of the first three skipped cards, joined; `…` follows when
/// more were skipped.
pub open spec fn skipped_preview(failures: Seq<(Seq<char>, Seq<char>)>) -> Seq<char> {
    let shown = if failures.len() > 3 {
        3
    } else {
        failures.len()
    };
    let titles = failures.subrange(0, shown as int).map_values(|f: (Seq<char>, Seq<char>)| f.0);
    crate::workflow_catalog::join_with(titles, ", "@) + if failures.len() > 3 {
        "…"@
    } else {
        Seq::<char>::empty()
    }
}

/// The titles of the first three skipped cards, joined, with `…` when more
/// were skipped; see `skipped_preview`.
pub fn skipped_preview_text(failures: &Vec<(String, String)>) -> (r: String)
    ensures
        r@ == skipped_preview(failures_view(failures@)),
{
    let ghost f = failures_view(failures@);
    let n = failures.len();
    let shown: usize = if n > 3 {
        3
    } else {
        n
    };
    let ghost titles = f.subrange(0, shown as int).map_values(|x: (Seq<char>, Seq<char>)| x.0);
    let mut joined: Vec<char> = Vec::new();
    let mut i: usize = 0;
    while i < shown
        invariant
            shown <= failures@.len(),
            f == failures_view(failures@),
            titles == f.subrange(0, shown as int).map_values(|x: (Seq<char>, Seq<char>)| x.0),
            i <= shown,
            joined@ == crate::workflow_catalog::join_with(titles.subrange(0, i as int), ", "@),
        decreases shown - i,
    {
        if i > 0 {
            joined = crate::text::concat_chars(joined.as_slice(), chars_of(", ").as_slice());
        }
        joined = crate::text::concat_chars(joined.as_slice(), chars_of(failures[i].0.as_str()).as_slice());
        proof {
            let pre = titles.subrange(0, i + 1);
            assert(pre.drop_last() =~= titles.subrange(0, i as int));
            assert(pre.last() == failures@[i as int].0@);
            if i == 0 {
                assert(pre.len() == 1);
            }
        }
        i = i + 1;
    }
    assert(titles.subrange(0, i as int) =~= titles);
    let preview = if n > 3 {
        crate::text::concat_chars(joined.as_slice(), chars_of("…").as_slice())
    } else {
        joined
    };
    string_of(preview.as_slice())
}

/// The lines for the first `n` skipped cards.
pub open spec fn skip_lines(f: Seq<(Seq<char>, Seq<char>)>, n: int) -> Seq<Seq<char>> {
    Seq::new(n as nat, |i: int| "Storyboard batch skipped '"@ + f[i].0 + "': "@ + f[i].1)
}

/// The view of a list of string pairs.
pub open spec fn failures_view(v: Seq<(String, String)>) -> Seq<(Seq<char>, Seq<char>)> {
    v.map_values(|f: (String, String)| (f.0@, f.1@))
}

/// The report of a batch of sends: how many were queued and skipped,
/// a notice of the queued ones, a warning naming the first skipped ones,
/// and a line for each of the first eight skipped.
pub fn storyboard_batch_summary(queued: usize, failures: &Vec<(String, String)>) -> (r: BatchSummary)
    ensures
        ({
            let f = failures_view(failures@);
            let n = f.len();
            &&& r.log@ == "Storyboard batch queue finished: "@ + crate::text::nat_decimal(queued as nat) + " queued, "@
                + crate::text::nat_decimal(n) + " skipped"@
            &&& crate::screenplay::opt_string_view(r.queued_alert) == if queued > 0 {
                Some("Queued "@ + crate::text::nat_decimal(queued as nat) + " storyboard job"@ + (if queued == 1 {
                    Seq::<char>::empty()
                } else {
                    "s"@
                }) + " in ComfyUI"@)
            } else {
                None
            }
            &&& crate::screenplay::opt_string_view(r.skipped_alert) == if n > 0 {
                Some("Skipped "@ + crate::text::nat_decimal(n) + " card(s): "@ + skipped_preview(f))
            } else {
                None
            }
            &&& crate::screenplay::strings_view(r.skipped_lines@) == skip_lines(f, if n > 8 {
                8
            } else {
                n as int
            })
        }),
{
    let ghost f = failures_view(failures@);
    let n = failures.len();
    let q = u64_decimal_string(queued as u64);
    let nd = u64_decimal_string(n as u64);
    let head = crate::text::cat3("Storyboard batch queue finished: ", q.as_str(), " queued, ");
    let log = crate::text::cat3(head.as_str(), nd.as_str(), " skipped");
    let queued_alert = if queued > 0 {
        let a = crate::text::cat3("Queued ", q.as_str(), " storyboard job");
        let b = if queued == 1 {
            a
        } else {
            crate::text::cat(a.as_str(), "s")
        };
        Some(crate::text::cat(b.as_str(), " in ComfyUI"))
    } else {
        None
    };
    let skipped_alert = if n > 0 {
        let preview = skipped_preview_text(failures);
        let head = crate::text::cat3("Skipped ", nd.as_str(), " card(s): ");
        Some(crate::text::cat(head.as_str(), preview.as_str()))
    } else {
        None
    };
    let limit: usize = if n > 8 {
        8
    } else {
        n
    };
    let mut lines: Vec<String> = Vec::new();
    let mut k: usize = 0;
    while k < limit
        invariant
            limit <= failures@.len(),
            f == failures_view(failures@),
            k <= limit,
            crate::screenplay::strings_view(lines@) == skip_lines(f, k as int),
        decreases limit - k,
    {
        let a = crate::text::cat3("Storyboard batch skipped '", failures[k].0.as_str(), "': ");
        let line = crate::text::cat(a.as_str(), failures[k].1.as_str());
        let ghost before = crate::screenplay::strings_view(lines@);
        let ghost lv = line@;
        lines.push(line);
        proof {
            assert(f[k as int] == (failures@[k as int].0@, failures@[k as int].1@));
            assert(crate::screenplay::strings_view(lines@) =~= before.push(lv));
            assert(crate::screenplay::strings_view(lines@) =~= skip_lines(f, k + 1));
        }
        k = k + 1;
    }
    BatchSummary { log, queued_alert, skipped_alert, skipped_lines: lines }
}

} // verus!
