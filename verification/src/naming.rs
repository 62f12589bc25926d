//! Names the editor derives: file-name components, workflow slugs and keys,
//! and the labels of workflow inputs.

use vstd::prelude::*;
use crate::ids::{hex_digits, uuid_string, uuid_text};
use crate::text::{
    chars_of, eq_ignore_case, eq_ignore_case_lit, eq_lit, is_ascii_alnum, is_ascii_alnum_exec,
    lower, lower_char, lower_char_exec, lower_vec, string_of, trim, trim_vec,
};
use crate::workflow_input::StoryboardWorkflowInputKind;
use crate::workflow_preset::{InputSpecView, StoryboardWorkflowInputSpec};

verus! {

/// Every character that is not an ASCII letter or digit turned into `-`.
pub open spec fn dashify(s: Seq<char>) -> Seq<char> {
    s.map_values(|c: char| if is_ascii_alnum(c) { c } else { '-' })
}

/// Runs of `-` shortened to a single `-`.
pub open spec fn collapse_dashes(s: Seq<char>) -> Seq<char>
    decreases s.len(),
{
    if s.len() == 0 {
        s
    } else {
        let p = collapse_dashes(s.drop_last());
        if s.last() == '-' && p.len() > 0 && p.last() == '-' {
            p
        } else {
            p.push(s.last())
        }
    }
}

/// Leading `-` removed.
pub open spec fn trim_dashes_start(s: Seq<char>) -> Seq<char>
    decreases s.len(),
{
    if s.len() > 0 && s[0] == '-' {
        trim_dashes_start(s.drop_first())
    } else {
        s
    }
}

/// Trailing `-` removed.
pub open spec fn trim_dashes_end(s: Seq<char>) -> Seq<char>
    decreases s.len(),
{
    if s.len() > 0 && s.last() == '-' {
        trim_dashes_end(s.drop_last())
    } else {
        s
    }
}

/// `sanitize_filename_component`: ASCII letters and digits kept, every
/// run of other characters made one `-`, no `-` at either end, and
/// `storyboard` when nothing is left.
pub open spec fn sanitize_spec(input: Seq<char>) -> Seq<char> {
    let s = trim_dashes_end(trim_dashes_start(collapse_dashes(dashify(input))));
    if s.len() == 0 {
        "storyboard"@
    } else {
        s
    }
}

/// Characters other than ASCII letters and digits as `-`, runs of `-`
/// shortened to one.
fn collapse_exec(c: &[char]) -> (r: Vec<char>)
    ensures
        r@ == collapse_dashes(dashify(c@)),
{
    let mut collapsed: Vec<char> = Vec::new();
    let mut i: usize = 0;
    while i < c.len()
        invariant
            i <= c@.len(),
            collapsed@ == collapse_dashes(dashify(c@.subrange(0, i as int))),
        decreases c@.len() - i,
    {
        proof {
            assert(dashify(c@.subrange(0, i + 1)).drop_last() =~= dashify(c@.subrange(0, i as int)));
        }
        let ch = if is_ascii_alnum_exec(c[i]) {
            c[i]
        } else {
            '-'
        };
        let n = collapsed.len();
        if !(ch == '-' && n > 0 && collapsed[n - 1] == '-') {
            collapsed.push(ch);
        }
        i = i + 1;
    }
    assert(c@.subrange(0, c@.len() as int) =~= c@);
    collapsed
}

/// `-` removed from both ends.
fn trim_dashes_exec(s: &[char]) -> (r: Vec<char>)
    ensures
        r@ == trim_dashes_end(trim_dashes_start(s@)),
{
    let n = s.len();
    let mut a: usize = 0;
    assert(s@.subrange(0, n as int) =~= s@);
    while a < n && s[a] == '-'
        invariant
            n == s@.len(),
            a <= n,
            trim_dashes_start(s@) == trim_dashes_start(s@.subrange(a as int, n as int)),
        decreases n - a,
    {
        let ghost rest = s@.subrange(a as int, n as int);
        assert(rest.drop_first() =~= s@.subrange(a + 1, n as int));
        a = a + 1;
    }
    let ghost t = s@.subrange(a as int, n as int);
    assert(trim_dashes_start(t) == t);
    let mut b: usize = n;
    while b > a && s[b - 1] == '-'
        invariant
            n == s@.len(),
            a <= b <= n,
            trim_dashes_end(t) == trim_dashes_end(s@.subrange(a as int, b as int)),
        decreases b,
    {
        let ghost part = s@.subrange(a as int, b as int);
        assert(part.drop_last() =~= s@.subrange(a as int, b - 1));
        b = b - 1;
    }
    crate::text::copy_chars(vstd::slice::slice_subrange(s, a, b))
}

/// A title made a file-name component; see `sanitize_spec`.
pub fn sanitize_filename_component(input: &str) -> (r: String)
    ensures
        r@ == sanitize_spec(input@),
{
    let c = chars_of(input);
    let collapsed = collapse_exec(c.as_slice());
    let kept = trim_dashes_exec(collapsed.as_slice());
    if kept.len() == 0 {
        String::from_str("storyboard")
    } else {
        string_of(kept.as_slice())
    }
}

/// `storyboard_forced_filename_prefix`: `storyboard-`, the project's
/// sanitized id, `-`, and the first eight characters of the card's id.
pub open spec fn forced_prefix_spec(project_id: Seq<char>, card_id: u128) -> Seq<char> {
    "storyboard-"@ + sanitize_spec(project_id) + "-"@ + uuid_text(card_id).subrange(0, 8)
}

/// The output file prefix of a card in a project; see `forced_prefix_spec`.
pub fn storyboard_forced_filename_prefix(project_id: &str, card_id: u128) -> (r: String)
    ensures
        r@ == forced_prefix_spec(project_id@, card_id),
{
    let project = sanitize_filename_component(project_id);
    let id = chars_of(uuid_string(card_id).as_str());
    let short = crate::text::copy_chars(vstd::slice::slice_subrange(id.as_slice(), 0, 8));
    let head = crate::text::cat3("storyboard-", project.as_str(), "-");
    let all = crate::text::concat_chars(chars_of(head.as_str()).as_slice(), short.as_slice());
    string_of(all.as_slice())
}

/// The slug of a name so far, and whether it ends in a dash that came from
/// a separator.
pub open spec fn slug_fold(name: Seq<char>) -> (Seq<char>, bool)
    decreases name.len(),
{
    if name.len() == 0 {
        (Seq::empty(), false)
    } else {
        let (s, last_dash) = slug_fold(name.drop_last());
        let l = lower_char(name.last());
        if is_ascii_alnum(l) {
            (s.push(l), false)
        } else if !last_dash {
            (s.push('-'), true)
        } else {
            (s, last_dash)
        }
    }
}

/// `slugify_workflow_name`: the name lower-cased with runs of other
/// characters as one `-` (`workflow` when empty, one trailing `-` dropped),
/// then `-` and the first eight hexadecimal digits of the id.
pub open spec fn slug_spec(name: Seq<char>, id: u128) -> Seq<char> {
    let s0 = slug_fold(name).0;
    let s1 = if s0.len() == 0 {
        "workflow"@
    } else {
        s0
    };
    let s2 = if s1.len() > 0 && s1.last() == '-' {
        s1.drop_last()
    } else {
        s1
    };
    s2 + "-"@ + hex_digits(id as nat / 0x1_0000_0000_0000_0000_0000_0000, 8)
}

/// The slug a workflow is known by; see `slug_spec`.
pub fn slugify_workflow_name(name: &str, id: u128) -> (r: String)
    ensures
        r@ == slug_spec(name@, id),
{
    let c = chars_of(name);
    let mut slug: Vec<char> = Vec::new();
    let mut last_dash = false;
    let mut i: usize = 0;
    while i < c.len()
        invariant
            i <= c@.len(),
            (slug@, last_dash) == slug_fold(c@.subrange(0, i as int)),
        decreases c@.len() - i,
    {
        proof {
            assert(c@.subrange(0, i + 1).drop_last() =~= c@.subrange(0, i as int));
        }
        let l = lower_char_exec(c[i]);
        if is_ascii_alnum_exec(l) {
            slug.push(l);
            last_dash = false;
        } else if !last_dash {
            slug.push('-');
            last_dash = true;
        }
        i = i + 1;
    }
    assert(c@.subrange(0, c@.len() as int) =~= c@);
    if slug.len() == 0 {
        slug = chars_of("workflow");
    }
    let n = slug.len();
    if n > 0 && slug[n - 1] == '-' {
        let ghost before = slug@;
        let _ = slug.pop();
        assert(slug@ =~= before.drop_last());
    }
    let text = chars_of(uuid_string(id).as_str());
    let short = crate::text::copy_chars(vstd::slice::slice_subrange(text.as_slice(), 0, 8));
    proof {
        assert(short@ =~= hex_digits(id as nat / 0x1_0000_0000_0000_0000_0000_0000, 8)) by {
            crate::ids::lemma_hex_digits_len(id as nat / 0x1_0000_0000_0000_0000_0000_0000, 8);
        }
    }
    let all = crate::text::concat3(slug.as_slice(), chars_of("-").as_slice(), short.as_slice());
    string_of(all.as_slice())
}

/// A workflow key as it is compared: trimmed and lower-cased.
pub fn normalized_workflow_key(raw: &str) -> (r: String)
    ensures
        r@ == lower(trim(raw@)),
{
    let t = trim_vec(chars_of(raw).as_slice());
    string_of(lower_vec(t.as_slice()).as_slice())
}

/// `is_autofilled_workflow_input`: inputs the editor fills in itself, left
/// out of the catalog given to the screenplay writer.
pub open spec fn autofilled_spec(s: InputSpecView) -> bool {
    ||| (eq_ignore_case(s.node_class, "RunwayImageToVideoNodeGen4"@) && (lower(s.input_key) == "duration"@
        || lower(s.input_key) == "seed"@))
    ||| (eq_ignore_case(s.node_class, "LoadImage"@) && eq_ignore_case(s.input_key, "image"@))
}

/// Whether the editor fills the input in itself; see `autofilled_spec`.
pub fn is_autofilled_workflow_input(spec: &StoryboardWorkflowInputSpec) -> (r: bool)
    ensures
        r == autofilled_spec(spec@),
{
    let key = lower_vec(chars_of(spec.input_key.as_str()).as_slice());
    let class = chars_of(spec.node_class.as_str());
    if eq_ignore_case_lit(class.as_slice(), "RunwayImageToVideoNodeGen4") && (eq_lit(key.as_slice(), "duration")
        || eq_lit(key.as_slice(), "seed")) {
        return true;
    }
    eq_ignore_case_lit(class.as_slice(), "LoadImage") && eq_ignore_case_lit(
        chars_of(spec.input_key.as_str()).as_slice(),
        "image",
    )
}

/// `workflow_input_kind_label`: how an input's kind is named to the
/// screenplay writer.
pub open spec fn kind_label_spec(kind: StoryboardWorkflowInputKind) -> Seq<char> {
    match kind {
        StoryboardWorkflowInputKind::Text { multiline } => if multiline {
            "multiline text"@
        } else {
            "text"@
        },
        StoryboardWorkflowInputKind::File => "file path"@,
        StoryboardWorkflowInputKind::Integer => "integer"@,
        StoryboardWorkflowInputKind::Float => "number"@,
        StoryboardWorkflowInputKind::Boolean => "boolean"@,
        StoryboardWorkflowInputKind::Array => "array"@,
        StoryboardWorkflowInputKind::Object => "object"@,
        StoryboardWorkflowInputKind::Null => "value"@,
    }
}

/// How an input's kind is named to the screenplay writer; see
/// `kind_label_spec`.
pub fn workflow_input_kind_label(kind: &StoryboardWorkflowInputKind) -> (r: &'static str)
    ensures
        r@ == kind_label_spec(*kind),
{
    match kind {
        StoryboardWorkflowInputKind::Text { multiline } => if *multiline {
            "multiline text"
        } else {
            "text"
        },
        StoryboardWorkflowInputKind::File => "file path",
        StoryboardWorkflowInputKind::Integer => "integer",
        StoryboardWorkflowInputKind::Float => "number",
        StoryboardWorkflowInputKind::Boolean => "boolean",
        StoryboardWorkflowInputKind::Array => "array",
        StoryboardWorkflowInputKind::Object => "object",
        StoryboardWorkflowInputKind::Null => "value",
    }
}

/// The part of a key after its last `:` (all of it without one).
pub open spec fn last_colon_part(k: Seq<char>) -> Seq<char>
    decreases k.len(),
{
    if k.len() == 0 {
        k
    } else if k.last() == ':' {
        Seq::empty()
    } else {
        last_colon_part(k.drop_last()).push(k.last())
    }
}

/// The stem of a file the editor copies into ComfyUI's input folder for a
/// card: the card's title made a file-name component, for a workflow input
/// the component of the input's key after its last `:`, then the first
/// eight characters of the card's id, joined by `-`.
pub open spec fn comfy_input_stem(title: Seq<char>, card_id: u128, key: Option<Seq<char>>) -> Seq<char> {
    let short = uuid_text(card_id).subrange(0, 8);
    match key {
        None => sanitize_spec(title) + "-"@ + short,
        Some(k) => sanitize_spec(title) + "-"@ + sanitize_spec(last_colon_part(k)) + "-"@ + short,
    }
}

/// The name of the copy at a given attempt: the stem and extension, with
/// the attempt number before the extension from the second attempt on.
pub open spec fn numbered_file_name(stem: Seq<char>, attempt: nat, ext: Seq<char>) -> Seq<char> {
    if attempt == 0 {
        stem + "."@ + ext
    } else {
        stem + "-"@ + crate::text::nat_decimal(attempt) + "."@ + ext
    }
}

/// The key's part after its last `:`.
fn last_colon_part_exec(k: &[char]) -> (r: Vec<char>)
    ensures
        r@ == last_colon_part(k@),
{
    let mut start: usize = 0;
    let mut i: usize = 0;
    while i < k.len()
        invariant
            i <= k@.len(),
            start <= i,
            last_colon_part(k@.subrange(0, i as int)) == k@.subrange(start as int, i as int),
        decreases k@.len() - i,
    {
        let ghost pre = k@.subrange(0, i as int);
        assert(k@.subrange(0, i + 1).drop_last() =~= pre);
        if k[i] == ':' {
            start = i + 1;
            assert(k@.subrange(start as int, i + 1) =~= Seq::<char>::empty());
        } else {
            assert(k@.subrange(start as int, i + 1) =~= k@.subrange(start as int, i as int).push(k@[i as int]));
        }
        i = i + 1;
    }
    assert(k@.subrange(0, k@.len() as int) =~= k@);
    crate::text::copy_chars(vstd::slice::slice_subrange(k, start, k.len()))
}

/// The stem of a file copied into ComfyUI's input folder for a card (see `comfy_input_stem`).
pub fn storyboard_comfy_input_stem(title: &str, card_id: u128, map_key: Option<&str>) -> (r: String)
    ensures
        r@ == comfy_input_stem(title@, card_id, crate::input_spec::opt_str_view(map_key)),
{
    let prefix = sanitize_filename_component(title);
    let id = chars_of(uuid_string(card_id).as_str());
    let short = crate::text::copy_chars(vstd::slice::slice_subrange(id.as_slice(), 0, 8));
    match map_key {
        None => crate::text::cat3(prefix.as_str(), "-", string_of(short.as_slice()).as_str()),
        Some(k) => {
            let part = last_colon_part_exec(chars_of(k).as_slice());
            let comp = sanitize_filename_component(string_of(part.as_slice()).as_str());
            let head = crate::text::cat3(prefix.as_str(), "-", comp.as_str());
            crate::text::cat3(head.as_str(), "-", string_of(short.as_slice()).as_str())
        },
    }
}

/// The file name of the copy at an attempt (see `numbered_file_name`); the
/// extension is the source's, or `png` when it has none. The editor tries
/// attempts from zero until the name is free in the folder.
pub fn comfy_input_file_name(stem: &str, ext: Option<&str>, attempt: u64) -> (r: String)
    ensures
        r@ == numbered_file_name(stem@, attempt as nat, match ext {
            Some(e) => e@,
            None => "png"@,
        }),
{
    let e: &str = match ext {
        Some(e) => e,
        None => "png",
    };
    if attempt == 0 {
        crate::text::cat3(stem, ".", e)
    } else {
        let n = crate::text::u64_decimal_string(attempt);
        let head = crate::text::cat3(stem, "-", n.as_str());
        crate::text::cat3(head.as_str(), ".", e)
    }
}

/// The path a workflow is given for a copied file: under `storyboard/`.
pub fn comfy_input_reference(file_name: &str) -> (r: String)
    ensures
        r@ == "storyboard/"@ + file_name@,
{
    crate::text::cat("storyboard/", file_name)
}

} // verus!
