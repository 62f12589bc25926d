//! Inference of the editable inputs of a ComfyUI prompt graph.

use vstd::prelude::*;
use crate::json::{as_str, get, is_first_key, view_entries, lemma_view_entries, obj_get, Json, JsonNumber, JsonValue, Num};
use crate::text::{
    chars_of, concat3, concat_chars, contains, contains_lit, copy_chars, eq_ignore_case,
    eq_ignore_case_lit, eq_lit, has_char, lower, lower_vec, starts_with, starts_with_lit, string_of,
    trim, trim_vec, utf8_len, utf8_len_exec,
};
use crate::workflow_input::{
    default_semantic, from_json_with_kind_spec, InputValue, StoryboardInputValue,
    StoryboardWorkflowInputKind, WorkflowInputSemantic,
};

verus! {

/// `infer_input_semantic`: what an input means, from its key, label and node
/// class.
pub open spec fn semantic_spec(key: Seq<char>, label: Seq<char>, class_type: Seq<char>) -> WorkflowInputSemantic {
    let k = lower(key);
    let l = lower(label);
    if contains(k, "negative"@) || contains(l, "negative"@) {
        WorkflowInputSemantic::PromptNegative
    } else if contains(k, "prompt"@) || contains(l, "prompt"@) {
        if contains(k, "positive"@) || contains(l, "positive"@) {
            WorkflowInputSemantic::PromptPositive
        } else {
            WorkflowInputSemantic::PromptSingle
        }
    } else if contains(k, "ratio"@) || contains(l, "ratio"@) {
        if contains(k, "aspect"@) || contains(l, "aspect"@) {
            WorkflowInputSemantic::AspectRatio
        } else {
            WorkflowInputSemantic::Ratio
        }
    } else if eq_ignore_case(class_type, "RunwayImageToVideoNodeGen4"@) && k == "ratio"@ {
        WorkflowInputSemantic::Ratio
    } else {
        WorkflowInputSemantic::Other
    }
}

/// A node title that ComfyUI fills in for nodes nobody named.
pub open spec fn is_placeholder_title_spec(title: Seq<char>) -> bool {
    let l = lower(trim(title));
    contains(l, "node name for s&r"@) || contains(l, "node name for s & r"@)
}

/// A title that may stand for its node.
pub open spec fn usable_title(title: Option<Seq<char>>) -> bool {
    match title {
        Some(t) => t.len() > 0 && !is_placeholder_title_spec(t),
        None => false,
    }
}

/// `format_input_label`.
pub open spec fn input_label_spec(title: Option<Seq<char>>, class_type: Seq<char>, key: Seq<char>) -> Seq<char> {
    if usable_title(title) {
        if eq_ignore_case(key, "text"@) {
            title.unwrap()
        } else {
            title.unwrap() + " ("@ + key + ")"@
        }
    } else if class_type.len() == 0 {
        key
    } else {
        class_type + " ("@ + key + ")"@
    }
}

/// `format_group_label`.
pub open spec fn group_label_spec(title: Option<Seq<char>>, class_type: Seq<char>, node_id: Seq<char>) -> Seq<char> {
    if usable_title(title) {
        title.unwrap()
    } else if class_type.len() > 0 {
        class_type
    } else {
        "Node "@ + node_id
    }
}

/// `is_gemini_image_node`.
pub open spec fn is_gemini_spec(class_type: Seq<char>, title: Option<Seq<char>>) -> bool {
    eq_ignore_case(class_type, "GeminiImageNode"@) || match title {
        Some(t) => trim(t).len() > 0 && lower(trim(t)) == "google gemini image"@,
        None => false,
    }
}

/// `is_output_node`: nodes that save or preview results take no inputs from
/// the storyboard.
pub open spec fn is_output_spec(class_type: Seq<char>) -> bool {
    let l = lower(trim(class_type));
    ||| l == "savevideo"@
    ||| l == "savevideoadvanced"@
    ||| l == "saveimage"@
    ||| l == "saveimages"@
    ||| l == "savegif"@
    ||| l == "saveaudio"@
    ||| l == "previewimage"@
    ||| l == "previewvideo"@
}

/// A non-blank string, trimmed.
pub open spec fn trimmed_text(j: Option<Json>) -> Option<Seq<char>> {
    match j {
        Some(Json::Str(t)) => if trim(t).len() > 0 {
            Some(trim(t))
        } else {
            None
        },
        _ => None,
    }
}

/// `extract_node_title`: `_meta.title`, else `title`, trimmed and non-blank.
pub open spec fn node_title_spec(node: Seq<(Seq<char>, Json)>) -> Option<Seq<char>> {
    let meta_title = match get(node, "_meta"@) {
        Some(Json::Obj(m)) => trimmed_text(get(m, "title"@)),
        _ => None,
    };
    if meta_title is Some {
        meta_title
    } else {
        trimmed_text(get(node, "title"@))
    }
}

/// Whether a JSON number fits an `i64` (`Number::is_i64`).
pub open spec fn is_i64_spec(n: Num) -> bool {
    match n {
        Num::PosInt(u) => u <= i64::MAX,
        Num::NegInt(_) => true,
        Num::Float(_) => false,
    }
}

/// `infer_input_kind`.
pub open spec fn kind_spec(class_type: Seq<char>, title: Option<Seq<char>>, key: Seq<char>, value: Json) -> StoryboardWorkflowInputKind {
    let c = lower(class_type);
    let k = lower(key);
    let tl = match title {
        Some(t) => Some(lower(t)),
        None => None,
    };
    let is_file_keyword = contains(k, "image"@) || contains(k, "video"@) || contains(k, "file"@)
        || contains(k, "path"@);
    let title_suggests_file = match tl {
        Some(t) => contains(t, "image"@) || contains(t, "reference"@) || contains(t, "video"@),
        None => false,
    };
    let is_file_node = contains(c, "loadimage"@) || contains(c, "loadvideo"@) || contains(
        c,
        "imageinput"@,
    ) || contains(c, "videoinput"@) || contains(c, "upload"@);
    if (value is Str || value is Null) && (is_file_keyword || is_file_node || title_suggests_file) {
        StoryboardWorkflowInputKind::File
    } else {
        match value {
            Json::Str(s) => StoryboardWorkflowInputKind::Text {
                multiline: contains(k, "prompt"@) || contains(k, "description"@) || contains(
                    k,
                    "text"@,
                ) || match tl {
                    Some(t) => contains(t, "prompt"@) || contains(t, "description"@) || contains(
                        t,
                        "notes"@,
                    ),
                    None => false,
                } || contains(c, "textencode"@) || contains(c, "prompt"@) || utf8_len(s) > 120
                    || s.contains('\n'),
            },
            Json::Bool(_) => StoryboardWorkflowInputKind::Boolean,
            Json::Number(n) => if is_i64_spec(n) {
                StoryboardWorkflowInputKind::Integer
            } else {
                StoryboardWorkflowInputKind::Float
            },
            Json::Arr(_) => StoryboardWorkflowInputKind::Array,
            Json::Obj(_) => StoryboardWorkflowInputKind::Object,
            Json::Null => StoryboardWorkflowInputKind::Null,
        }
    }
}

/// The view of an optional `&str`.
pub open spec fn opt_str_view(t: Option<&str>) -> Option<Seq<char>> {
    match t {
        Some(s) => Some(s@),
        None => None,
    }
}

/// What an input means, from its key, label and node; see `semantic_spec`.
pub fn infer_input_semantic(input_key: &str, label: &str, class_type: &str) -> (r: WorkflowInputSemantic)
    ensures
        r == semantic_spec(input_key@, label@, class_type@),
{
    let key = lower_vec(chars_of(input_key).as_slice());
    let lab = lower_vec(chars_of(label).as_slice());
    if contains_lit(key.as_slice(), "negative") || contains_lit(lab.as_slice(), "negative") {
        return WorkflowInputSemantic::PromptNegative;
    }
    if contains_lit(key.as_slice(), "prompt") || contains_lit(lab.as_slice(), "prompt") {
        if contains_lit(key.as_slice(), "positive") || contains_lit(lab.as_slice(), "positive") {
            return WorkflowInputSemantic::PromptPositive;
        }
        if contains_lit(key.as_slice(), "negative") || contains_lit(lab.as_slice(), "negative") {
            return WorkflowInputSemantic::PromptNegative;
        }
        return WorkflowInputSemantic::PromptSingle;
    }
    if contains_lit(key.as_slice(), "ratio") || contains_lit(lab.as_slice(), "ratio") {
        if contains_lit(key.as_slice(), "aspect") || contains_lit(lab.as_slice(), "aspect") {
            return WorkflowInputSemantic::AspectRatio;
        }
        return WorkflowInputSemantic::Ratio;
    }
    if eq_ignore_case_lit(chars_of(class_type).as_slice(), "RunwayImageToVideoNodeGen4") {
        if eq_lit(key.as_slice(), "ratio") {
            return WorkflowInputSemantic::Ratio;
        }
    }
    default_semantic()
}

/// Whether a node title is a placeholder rather than a name.
pub fn is_placeholder_title(title: &str) -> (r: bool)
    ensures
        r == is_placeholder_title_spec(title@),
{
    let t = trim_vec(chars_of(title).as_slice());
    let l = lower_vec(t.as_slice());
    contains_lit(l.as_slice(), "node name for s&r") || contains_lit(l.as_slice(), "node name for s & r")
}

/// The label an input is shown under; see `input_label_spec`.
pub fn format_input_label(title: Option<&str>, class_type: &str, input_key: &str) -> (r: String)
    ensures
        r@ == input_label_spec(opt_str_view(title), class_type@, input_key@),
{
    let key = chars_of(input_key);
    let usable = match title {
        Some(t) => t.unicode_len() > 0 && !is_placeholder_title(t),
        None => false,
    };
    if usable {
        let t = chars_of(title.unwrap());
        if eq_ignore_case_lit(key.as_slice(), "text") {
            return string_of(t.as_slice());
        }
        let head = concat3(t.as_slice(), chars_of(" (").as_slice(), key.as_slice());
        let all = concat_chars(head.as_slice(), chars_of(")").as_slice());
        return string_of(all.as_slice());
    }
    if class_type.unicode_len() == 0 {
        return string_of(key.as_slice());
    }
    let head = concat3(chars_of(class_type).as_slice(), chars_of(" (").as_slice(), key.as_slice());
    let all = concat_chars(head.as_slice(), chars_of(")").as_slice());
    string_of(all.as_slice())
}

/// The label of a node's group of inputs; see `group_label_spec`.
pub fn format_group_label(title: Option<&str>, class_type: &str, node_id: &str) -> (r: String)
    ensures
        r@ == group_label_spec(opt_str_view(title), class_type@, node_id@),
{
    if let Some(t) = title {
        if t.unicode_len() > 0 && !is_placeholder_title(t) {
            return string_of(chars_of(t).as_slice());
        }
    }
    if class_type.unicode_len() > 0 {
        return string_of(chars_of(class_type).as_slice());
    }
    let all = concat_chars(chars_of("Node ").as_slice(), chars_of(node_id).as_slice());
    string_of(all.as_slice())
}

/// Whether a node is a Gemini image node; see `is_gemini_spec`.
pub fn is_gemini_image_node(class_type: &str, title: Option<&str>) -> (r: bool)
    ensures
        r == is_gemini_spec(class_type@, opt_str_view(title)),
{
    if eq_ignore_case_lit(chars_of(class_type).as_slice(), "GeminiImageNode") {
        return true;
    }
    if let Some(t) = title {
        let trimmed = trim_vec(chars_of(t).as_slice());
        if trimmed.len() > 0 && eq_lit(lower_vec(trimmed.as_slice()).as_slice(), "google gemini image") {
            return true;
        }
    }
    false
}

/// Whether a node saves or previews results; see `is_output_spec`.
pub fn is_output_node(class_type: &str) -> (r: bool)
    ensures
        r == is_output_spec(class_type@),
{
    let l = lower_vec(trim_vec(chars_of(class_type).as_slice()).as_slice());
    let s = l.as_slice();
    eq_lit(s, "savevideo") || eq_lit(s, "savevideoadvanced") || eq_lit(s, "saveimage") || eq_lit(
        s,
        "saveimages",
    ) || eq_lit(s, "savegif") || eq_lit(s, "saveaudio") || eq_lit(s, "previewimage") || eq_lit(
        s,
        "previewvideo",
    )
}

/// A trimmed non-blank string value, if `v` is one.
pub(crate) fn trimmed_text_exec(v: Option<&JsonValue>) -> (r: Option<String>)
    ensures
        match r {
            Some(s) => trimmed_text(crate::json::opt_view(v)) == Some(s@),
            None => trimmed_text(crate::json::opt_view(v)) is None,
        },
{
    match v {
        Some(JsonValue::String(t)) => {
            let tr = trim_vec(chars_of(t.as_str()).as_slice());
            if tr.len() > 0 {
                Some(string_of(tr.as_slice()))
            } else {
                None
            }
        },
        _ => None,
    }
}

/// The title of a node, when it has one; see `node_title_spec`.
pub fn extract_node_title(node_obj: &Vec<(String, JsonValue)>) -> (r: Option<String>)
    ensures
        match r {
            Some(s) => node_title_spec(view_entries(node_obj@)) == Some(s@),
            None => node_title_spec(view_entries(node_obj@)) is None,
        },
{
    if let Some(JsonValue::Object(meta)) = obj_get(node_obj, "_meta") {
        let t = trimmed_text_exec(obj_get(meta, "title"));
        if t.is_some() {
            return t;
        }
    }
    trimmed_text_exec(obj_get(node_obj, "title"))
}

/// The kind of an input, from its value; see `kind_spec`.
pub fn infer_input_kind(class_type: &str, title: Option<&str>, input_key: &str, value: &JsonValue) -> (r: StoryboardWorkflowInputKind)
    ensures
        r == kind_spec(class_type@, opt_str_view(title), input_key@, value@),
{
    let c = lower_vec(chars_of(class_type).as_slice());
    let k = lower_vec(chars_of(input_key).as_slice());
    let tl: Option<Vec<char>> = match title {
        Some(t) => Some(lower_vec(chars_of(t).as_slice())),
        None => None,
    };
    let value_is_string = matches!(value, JsonValue::String(_));
    let value_is_null = matches!(value, JsonValue::Null);
    let is_file_keyword = contains_lit(k.as_slice(), "image") || contains_lit(k.as_slice(), "video")
        || contains_lit(k.as_slice(), "file") || contains_lit(k.as_slice(), "path");
    let title_suggests_file = match &tl {
        Some(t) => contains_lit(t.as_slice(), "image") || contains_lit(t.as_slice(), "reference")
            || contains_lit(t.as_slice(), "video"),
        None => false,
    };
    let is_file_node = contains_lit(c.as_slice(), "loadimage") || contains_lit(c.as_slice(), "loadvideo")
        || contains_lit(c.as_slice(), "imageinput") || contains_lit(c.as_slice(), "videoinput")
        || contains_lit(c.as_slice(), "upload");
    if (value_is_string || value_is_null) && (is_file_keyword || is_file_node || title_suggests_file) {
        return StoryboardWorkflowInputKind::File;
    }
    match value {
        JsonValue::String(s) => {
            let mut multiline = false;
            if contains_lit(k.as_slice(), "prompt") || contains_lit(k.as_slice(), "description")
                || contains_lit(k.as_slice(), "text") {
                multiline = true;
            }
            if let Some(t) = &tl {
                if contains_lit(t.as_slice(), "prompt") || contains_lit(t.as_slice(), "description")
                    || contains_lit(t.as_slice(), "notes") {
                    multiline = true;
                }
            }
            if contains_lit(c.as_slice(), "textencode") || contains_lit(c.as_slice(), "prompt") {
                multiline = true;
            }
            let sc = chars_of(s.as_str());
            let long = if sc.len() > 120 {
                if sc.len() <= usize::MAX / 4 {
                    utf8_len_exec(sc.as_slice()) > 120
                } else {
                    proof {
                        lemma_utf8_len_ge(sc@);
                    }
                    true
                }
            } else {
                proof {
                    lemma_utf8_len_le(sc@);
                }
                utf8_len_exec(sc.as_slice()) > 120
            };
            if long || has_char(sc.as_slice(), '\n') {
                multiline = true;
            }
            StoryboardWorkflowInputKind::Text { multiline }
        },
        JsonValue::Bool(_) => StoryboardWorkflowInputKind::Boolean,
        JsonValue::Number(n) => {
            let is_i64 = match n {
                JsonNumber::PosInt(u) => *u <= 0x7fff_ffff_ffff_ffffu64,
                JsonNumber::NegInt(_) => true,
                JsonNumber::Float(_) => false,
            };
            if is_i64 {
                StoryboardWorkflowInputKind::Integer
            } else {
                StoryboardWorkflowInputKind::Float
            }
        },
        JsonValue::Array(_) => StoryboardWorkflowInputKind::Array,
        JsonValue::Object(_) => StoryboardWorkflowInputKind::Object,
        JsonValue::Null => StoryboardWorkflowInputKind::Null,
    }
}

/// Every character takes at least one byte.
proof fn lemma_utf8_len_ge(s: Seq<char>)
    ensures
        utf8_len(s) >= s.len(),
    decreases s.len(),
{
    if s.len() > 0 {
        lemma_utf8_len_ge(s.drop_last());
    }
}

/// Every character takes at most four bytes.
proof fn lemma_utf8_len_le(s: Seq<char>)
    ensures
        utf8_len(s) <= 4 * s.len(),
    decreases s.len(),
{
    if s.len() > 0 {
        lemma_utf8_len_le(s.drop_last());
    }
}

} // verus!
