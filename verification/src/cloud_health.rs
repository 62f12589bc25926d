//! Talking to a cloud backend's health endpoints: the URLs from the base the
//! user typed, the recent jobs and their artifacts the backend lists, and
//! the lines a connection test logs.

use vstd::prelude::*;
use crate::cloud_job::strip_trailing_slashes;
use crate::json::{lemma_view_items, member, obj_get, Json, JsonValue};
use crate::text::{chars_of, ends_with, nat_decimal, string_of, trim, trim_vec, u64_decimal_string};

verus! {

/// The base with a pasted health path taken off: trailing slashes go, then
/// a `/healthz` or else `/health` ending (and the slashes before it).
pub open spec fn health_base(base: Seq<char>) -> Seq<char> {
    let b = strip_trailing_slashes(trim(base));
    if ends_with(b, "/healthz"@) {
        strip_trailing_slashes(b.subrange(0, b.len() - 8))
    } else if ends_with(b, "/health"@) {
        strip_trailing_slashes(b.subrange(0, b.len() - 7))
    } else {
        b
    }
}

/// `s.trim_end_matches('/')`, on characters.
fn strip_slashes(s: &Vec<char>) -> (r: Vec<char>)
    ensures
        r@ == strip_trailing_slashes(s@),
{
    let mut j: usize = s.len();
    assert(s@.subrange(0, j as int) =~= s@);
    while j > 0 && s[j - 1] == '/'
        invariant
            j <= s@.len(),
            strip_trailing_slashes(s@) == strip_trailing_slashes(s@.subrange(0, j as int)),
        decreases j,
    {
        assert(s@.subrange(0, j as int).drop_last() =~= s@.subrange(0, j - 1));
        j = j - 1;
    }
    prefix_of(s, j)
}

/// The first `n` characters.
fn prefix_of(s: &Vec<char>, n: usize) -> (r: Vec<char>)
    requires
        n <= s@.len(),
    ensures
        r@ == s@.subrange(0, n as int),
{
    let mut r: Vec<char> = Vec::new();
    let mut k: usize = 0;
    while k < n
        invariant
            k <= n <= s@.len(),
            r@ == s@.subrange(0, k as int),
        decreases n - k,
    {
        r.push(s[k]);
        k = k + 1;
        assert(r@ =~= s@.subrange(0, k as int));
    }
    r
}

/// Whether the characters end with the literal `lit`.
fn ends_with_lit(s: &Vec<char>, lit: &str) -> (r: bool)
    ensures
        r == ends_with(s@, lit@),
{
    let p = chars_of(lit);
    if p.len() > s.len() {
        return false;
    }
    let slen = s.len();
    let off = slen - p.len();
    let mut i: usize = 0;
    while i < p.len()
        invariant
            slen == s@.len(),
            p@ == lit@,
            off + p@.len() == s@.len(),
            i <= p@.len(),
            forall|k: int| 0 <= k < i ==> s@[off + k] == p@[k],
        decreases p@.len() - i,
    {
        if s[off + i] != p[i] {
            assert(s@.subrange(off as int, s@.len() as int)[i as int] != p@[i as int]);
            return false;
        }
        i = i + 1;
    }
    assert(s@.subrange(off as int, s@.len() as int) =~= p@);
    true
}

/// The health endpoints of a cloud backend: `/healthz` and `/health` under
/// the base (see `health_base`), or why there are none.
pub fn cloud_health_urls(base: &str) -> (r: Result<(String, String), String>)
    ensures
        trim(base@).len() == 0 ==> (r matches Err(m) && m@ == "Base URL not set"@),
        trim(base@).len() > 0 ==> (r matches Ok(u) && u.0@ == health_base(base@) + "/healthz"@ && u.1@ == health_base(
            base@,
        ) + "/health"@),
{
    let t = trim_vec(chars_of(base).as_slice());
    if t.len() == 0 {
        return Err(String::from_str("Base URL not set"));
    }
    let b = strip_slashes(&t);
    proof {
        reveal_strlit("/healthz");
        reveal_strlit("/health");
    }
    let core = if ends_with_lit(&b, "/healthz") {
        strip_slashes(&prefix_of(&b, b.len() - 8))
    } else if ends_with_lit(&b, "/health") {
        strip_slashes(&prefix_of(&b, b.len() - 7))
    } else {
        b
    };
    let core_text = string_of(core.as_slice());
    Ok((crate::text::cat(core_text.as_str(), "/healthz"), crate::text::cat(core_text.as_str(), "/health")))
}

/// A string member of a JSON value, or the empty string.
pub open spec fn str_field(j: Json, k: Seq<char>) -> Seq<char> {
    match member(j, k) {
        Some(Json::Str(s)) => s,
        _ => Seq::empty(),
    }
}

/// The array member of a JSON value, or nothing.
pub open spec fn array_field(j: Json, k: Seq<char>) -> Seq<Json> {
    match member(j, k) {
        Some(Json::Arr(a)) => a,
        _ => Seq::empty(),
    }
}

/// The artifacts of a job that have a URL: file name and URL.
pub open spec fn artifact_links(arts: Seq<Json>) -> Seq<(Seq<char>, Seq<char>)>
    decreases arts.len(),
{
    if arts.len() == 0 {
        Seq::empty()
    } else {
        let before = artifact_links(arts.drop_last());
        let url = str_field(arts.last(), "url"@);
        if url.len() > 0 {
            before.push((str_field(arts.last(), "filename"@), url))
        } else {
            before
        }
    }
}

/// The recent jobs that have an id, each with its linked artifacts.
pub open spec fn recent_list(jobs: Seq<Json>) -> Seq<(Seq<char>, Seq<(Seq<char>, Seq<char>)>)>
    decreases jobs.len(),
{
    if jobs.len() == 0 {
        Seq::empty()
    } else {
        let before = recent_list(jobs.drop_last());
        let id = str_field(jobs.last(), "id"@);
        if id.len() > 0 {
            before.push((id, artifact_links(array_field(jobs.last(), "artifacts"@))))
        } else {
            before
        }
    }
}

/// A backend's recent jobs, from its `/healthz` answer.
#[derive(Debug)]
pub struct RecentJob {
    pub id: String,
    pub artifacts: Vec<(String, String)>,
}

/// The view of a recent job list.
pub open spec fn recent_view(v: Seq<RecentJob>) -> Seq<(Seq<char>, Seq<(Seq<char>, Seq<char>)>)> {
    v.map_values(|j: RecentJob| (j.id@, j.artifacts@.map_values(|a: (String, String)| (a.0@, a.1@))))
}

/// A string member of an object value, or the empty string.
fn str_field_exec(j: &JsonValue, k: &str) -> (r: String)
    ensures
        r@ == str_field(j@, k@),
{
    match j {
        JsonValue::Object(e) => match obj_get(e, k) {
            Some(JsonValue::String(s)) => s.clone(),
            _ => String::new(),
        },
        _ => String::new(),
    }
}

/// The array member of an object value, or an empty list.
fn array_field_exec<'a>(j: &'a JsonValue, k: &str) -> (r: Option<&'a Vec<JsonValue>>)
    ensures
        match r {
            Some(a) => crate::json::view_items(a@) == array_field(j@, k@),
            None => array_field(j@, k@) == Seq::<Json>::empty(),
        },
{
    match j {
        JsonValue::Object(e) => match obj_get(e, k) {
            Some(JsonValue::Array(a)) => Some(a),
            _ => None,
        },
        _ => None,
    }
}

/// The linked artifacts of a job; see `artifact_links`.
fn collect_links(arts: &Vec<JsonValue>) -> (r: Vec<(String, String)>)
    ensures
        r@.map_values(|a: (String, String)| (a.0@, a.1@)) == artifact_links(crate::json::view_items(arts@)),
{
    let ghost iv = crate::json::view_items(arts@);
    proof {
        lemma_view_items(arts@);
    }
    let mut out: Vec<(String, String)> = Vec::new();
    let mut i: usize = 0;
    while i < arts.len()
        invariant
            iv == crate::json::view_items(arts@),
            iv.len() == arts@.len(),
            forall|t: int| 0 <= t < arts@.len() ==> #[trigger] iv[t] == arts@[t]@,
            i <= arts@.len(),
            out@.map_values(|a: (String, String)| (a.0@, a.1@)) == artifact_links(iv.subrange(0, i as int)),
        decreases arts@.len() - i,
    {
        proof {
            let pre = iv.subrange(0, i + 1);
            assert(pre.drop_last() =~= iv.subrange(0, i as int));
            assert(pre.last() == arts@[i as int]@);
        }
        let url = str_field_exec(&arts[i], "url");
        if chars_of(url.as_str()).len() > 0 {
            let name = str_field_exec(&arts[i], "filename");
            let ghost before = out@.map_values(|a: (String, String)| (a.0@, a.1@));
            let ghost pair = (name@, url@);
            out.push((name, url));
            proof {
                assert(out@.map_values(|a: (String, String)| (a.0@, a.1@)) =~= before.push(pair));
            }
        }
        i = i + 1;
    }
    assert(iv.subrange(0, i as int) =~= iv);
    out
}

/// The recent jobs of a `/healthz` answer: those
/// that have an id, each with the artifacts that have a URL.
pub fn recent_jobs(answer: &JsonValue) -> (r: Vec<RecentJob>)
    ensures
        recent_view(r@) == recent_list(array_field(answer@, "recent"@)),
{
    let jobs = match array_field_exec(answer, "recent") {
        Some(a) => a,
        None => {
            let r: Vec<RecentJob> = Vec::new();
            assert(recent_view(r@) =~= recent_list(Seq::<Json>::empty()));
            return r;
        },
    };
    let ghost iv = crate::json::view_items(jobs@);
    proof {
        lemma_view_items(jobs@);
    }
    let mut out: Vec<RecentJob> = Vec::new();
    let mut i: usize = 0;
    while i < jobs.len()
        invariant
            iv == crate::json::view_items(jobs@),
            iv.len() == jobs@.len(),
            forall|t: int| 0 <= t < jobs@.len() ==> #[trigger] iv[t] == jobs@[t]@,
            i <= jobs@.len(),
            recent_view(out@) == recent_list(iv.subrange(0, i as int)),
        decreases jobs@.len() - i,
    {
        proof {
            let pre = iv.subrange(0, i + 1);
            assert(pre.drop_last() =~= iv.subrange(0, i as int));
            assert(pre.last() == jobs@[i as int]@);
        }
        let id = str_field_exec(&jobs[i], "id");
        if chars_of(id.as_str()).len() > 0 {
            let links = match array_field_exec(&jobs[i], "artifacts") {
                Some(a) => collect_links(a),
                None => {
                    let r: Vec<(String, String)> = Vec::new();
                    assert(r@.map_values(|a: (String, String)| (a.0@, a.1@)) =~= artifact_links(Seq::<Json>::empty()));
                    r
                },
            };
            let ghost before = recent_view(out@);
            let job = RecentJob { id, artifacts: links };
            let ghost jv = (job.id@, job.artifacts@.map_values(|a: (String, String)| (a.0@, a.1@)));
            out.push(job);
            proof {
                assert(recent_view(out@) =~= before.push(jv));
            }
        }
        i = i + 1;
    }
    assert(iv.subrange(0, i as int) =~= iv);
    out
}

/// The line a connection test logs for the recent job at `i` (from 0): its
/// first artifact, or nothing when its artifact list is empty, or its status
/// when it has no artifact list.
pub open spec fn job_line(job: Json, i: nat) -> Seq<Seq<char>> {
    let head = "  ["@ + nat_decimal(i + 1) + "] "@ + str_field(job, "id"@);
    match member(job, "artifacts"@) {
        Some(Json::Arr(arts)) => if arts.len() > 0 {
            seq![head + " "@ + str_field(arts[0], "filename"@) + " -> "@ + str_field(arts[0], "url"@)]
        } else {
            Seq::empty()
        },
        _ => seq![head + " (status: "@ + str_field(job, "status"@) + ")"@],
    }
}

/// The lines for the first `n` recent jobs.
pub open spec fn job_lines(jobs: Seq<Json>, n: nat) -> Seq<Seq<char>>
    decreases n,
{
    if n == 0 {
        Seq::empty()
    } else {
        job_lines(jobs, (n - 1) as nat) + job_line(jobs[n - 1], (n - 1) as nat)
    }
}

/// What a connection test logs for a `/healthz` answer with status
/// `status`: when the body is JSON, the number of recent jobs and a line for
/// each of the first three; else that it was not JSON, or empty.
pub open spec fn healthz_lines(status: u16, body: Option<Seq<char>>) -> Seq<Seq<char>> {
    let code = nat_decimal(status as nat);
    match body {
        None => seq!["Healthz: "@ + code + " (empty body)"@],
        Some(text) => match crate::json_text::parsed_json(text) {
            Err(_) => seq!["Healthz: "@ + code + " (non-JSON)"@],
            Ok(v) => {
                let recent = array_field(v, "recent"@);
                let n = recent.len();
                seq!["Healthz: "@ + code + " (recent jobs: "@ + nat_decimal(n) + ")"@] + job_lines(
                    recent,
                    if n > 3 {
                        3
                    } else {
                        n
                    },
                )
            },
        },
    }
}

/// The lines for the first `n` recent jobs; see `job_lines`.
fn push_job_lines(out: &mut Vec<String>, jobs: &Vec<JsonValue>, n: usize)
    requires
        n <= jobs@.len(),
    ensures
        crate::screenplay::strings_view(final(out)@) == crate::screenplay::strings_view(old(out)@) + job_lines(
            crate::json::view_items(jobs@),
            n as nat,
        ),
{
    let ghost iv = crate::json::view_items(jobs@);
    let ghost start = crate::screenplay::strings_view(out@);
    proof {
        lemma_view_items(jobs@);
    }
    let mut i: usize = 0;
    while i < n
        invariant
            n <= jobs@.len(),
            iv == crate::json::view_items(jobs@),
            iv.len() == jobs@.len(),
            forall|t: int| 0 <= t < jobs@.len() ==> #[trigger] iv[t] == jobs@[t]@,
            i <= n,
            crate::screenplay::strings_view(out@) == start + job_lines(iv, i as nat),
        decreases n - i,
    {
        let job = &jobs[i];
        assert(iv[i as int] == job@);
        let id = str_field_exec(job, "id");
        let num = u64_decimal_string((i + 1) as u64);
        let head = crate::text::cat3("  [", num.as_str(), "] ");
        let head = crate::text::cat(head.as_str(), id.as_str());
        let ghost before = crate::screenplay::strings_view(out@);
        match job {
            JsonValue::Object(e) => match obj_get(e, "artifacts") {
                Some(JsonValue::Array(arts)) => {
                    if arts.len() > 0 {
                        proof {
                            lemma_view_items(arts@);
                        }
                        let fname = str_field_exec(&arts[0], "filename");
                        let url = str_field_exec(&arts[0], "url");
                        let line = crate::text::cat3(head.as_str(), " ", fname.as_str());
                        let line = crate::text::cat3(line.as_str(), " -> ", url.as_str());
                        out.push(line);
                    }
                },
                _ => {
                    let st = str_field_exec(job, "status");
                    let line = crate::text::cat3(head.as_str(), " (status: ", st.as_str());
                    out.push(crate::text::cat(line.as_str(), ")"));
                },
            },
            _ => {
                let st = str_field_exec(job, "status");
                let line = crate::text::cat3(head.as_str(), " (status: ", st.as_str());
                out.push(crate::text::cat(line.as_str(), ")"));
            },
        }
        proof {
            assert(crate::screenplay::strings_view(out@) =~= before + job_line(iv[i as int], i as nat));
        }
        i = i + 1;
    }
}

/// The lines reporting a `/healthz` answer; see
/// `healthz_lines`.
pub fn healthz_report(status: u16, body: Option<&str>) -> (r: Vec<String>)
    ensures
        crate::screenplay::strings_view(r@) == healthz_lines(status, crate::input_spec::opt_str_view(body)),
{
    let code = u64_decimal_string(status as u64);
    let mut out: Vec<String> = Vec::new();
    match body {
        None => {
            out.push(crate::text::cat3("Healthz: ", code.as_str(), " (empty body)"));
        },
        Some(text) => match crate::json_text::parse_json(text) {
            Err(_) => {
                out.push(crate::text::cat3("Healthz: ", code.as_str(), " (non-JSON)"));
            },
            Ok(v) => {
                let recent = array_field_exec(&v, "recent");
                let count: usize = match recent {
                    Some(a) => a.len(),
                    None => 0,
                };
                proof {
                    if let Some(a) = recent {
                        lemma_view_items(a@);
                    }
                }
                let n = u64_decimal_string(count as u64);
                let head = crate::text::cat3("Healthz: ", code.as_str(), " (recent jobs: ");
                out.push(crate::text::cat3(head.as_str(), n.as_str(), ")"));
                match recent {
                    Some(a) => {
                        let shown = if a.len() > 3 {
                            3
                        } else {
                            a.len()
                        };
                        push_job_lines(&mut out, a, shown);
                    },
                    None => {},
                }
            },
        },
    }
    out
}


/// What `url::Url::parse` and then `path_segments().next_back()` give for a
/// URL: its last path segment (percent-encoded), or none when it does not
/// parse or cannot be a base.
pub uninterp spec fn url_last_segment(url: Seq<char>) -> Option<Seq<char>>;

/// `url::Url::parse(url)` then the last of its `path_segments()`. The
/// contract names the result; it does not restate URL parsing.
#[verifier::external_body]
fn last_path_segment(url: &str) -> (r: Option<String>)
    ensures
        crate::screenplay::opt_string_view(r) == url_last_segment(url@),
{
    url::Url::parse(url).ok().and_then(|u| u.path_segments().and_then(|mut p| p.next_back()).map(|s| s.to_string()))
}

/// The file name of a downloaded artifact: the suggested name
/// when it is not empty, else the URL's last path segment, else
/// `artifact.mp4`.
pub fn cloud_import_file_name(suggested: Option<String>, url: &str) -> (r: String)
    ensures
        r@ == match suggested {
            Some(s) => if s@.len() > 0 {
                s@
            } else {
                match url_last_segment(url@) {
                    Some(seg) => seg,
                    None => "artifact.mp4"@,
                }
            },
            None => match url_last_segment(url@) {
                Some(seg) => seg,
                None => "artifact.mp4"@,
            },
        },
{
    if let Some(s) = &suggested {
        if chars_of(s.as_str()).len() > 0 {
            return s.clone();
        }
    }
    match last_path_segment(url) {
        Some(seg) => seg,
        None => String::from_str("artifact.mp4"),
    }
}

} // verus!
