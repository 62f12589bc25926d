//! The playable items of the timeline, built from the nodes of its graph.
//!
//! Quantities the player needs as floats (offsets in seconds, frame rates,
//! playback rates) are kept here in the units the graph stores them in:
//! frames, the frame-rate fraction, and the bit pattern of the rate.

use vstd::prelude::*;
use crate::json::{get, lemma_view_entries, obj_get, view_entries, Json, JsonValue};
use crate::screenplay::opt_string_view;
use crate::text::{chars_of, eq_ignore_case, eq_ignore_case_lit, eq_lit};
use crate::workflow_input::json_as_str;
use crate::workflow_preset::as_str_opt;

verus! {

/// A span of frames.
#[derive(Clone, Copy, Debug, PartialEq, Eq, Structural)]
pub struct FrameRange {
    pub start: i64,
    pub duration: i64,
}

/// A frame rate, as the fraction `num / den`.
#[derive(Clone, Copy, Debug, PartialEq, Eq, Structural)]
pub struct Fps {
    pub num: u32,
    pub den: u32,
}

/// A clip of the graph.
pub struct ClipNode {
    pub asset_id: Option<String>,
    pub timeline_range: FrameRange,
    pub media_range: FrameRange,
    /// The playback rate, as the bit pattern of an `f32`.
    pub playback_rate_bits: u32,
}

/// What a graph node is.
pub enum TimelineNodeKind {
    Clip(ClipNode),
    Generator { generator_id: String, timeline_range: FrameRange, metadata: JsonValue },
}

/// A node of the timeline graph; `id` is the text of its identifier.
pub struct TimelineNode {
    pub id: String,
    pub kind: TimelineNodeKind,
}

/// The kind of a track.
#[derive(Clone, Copy, Debug, PartialEq, Eq, Structural)]
pub enum TrackKind {
    Video,
    Audio,
}

/// What a playable item shows or plays. Offsets are in frames of the
/// timeline; the player turns them into seconds.
#[derive(Debug, PartialEq)]
pub enum ItemKind {
    Audio { src: String, in_offset_frames: i64, rate_bits: u32 },
    Image { src: String },
    Video { src: String, frame_rate: Fps, in_offset_frames: i64, rate_bits: u32 },
    Solid { color: String },
    Text { text: String, color: String },
}

/// A playable item of a track.
#[derive(Debug, PartialEq)]
pub struct Item {
    pub id: String,
    pub from: i64,
    pub duration_in_frames: i64,
    pub kind: ItemKind,
}

/// The value of an item kind.
pub enum ItemKindV {
    Audio { src: Seq<char>, in_offset_frames: i64, rate_bits: u32 },
    Image { src: Seq<char> },
    Video { src: Seq<char>, frame_rate: Fps, in_offset_frames: i64, rate_bits: u32 },
    Solid { color: Seq<char> },
    Text { text: Seq<char>, color: Seq<char> },
}

/// The value of an item.
pub struct ItemV {
    pub id: Seq<char>,
    pub from: i64,
    pub duration_in_frames: i64,
    pub kind: ItemKindV,
}

impl View for Item {
    type V = ItemV;

    open spec fn view(&self) -> ItemV {
        ItemV {
            id: self.id@,
            from: self.from,
            duration_in_frames: self.duration_in_frames,
            kind: match &self.kind {
                ItemKind::Audio { src, in_offset_frames, rate_bits } => ItemKindV::Audio {
                    src: src@,
                    in_offset_frames: *in_offset_frames,
                    rate_bits: *rate_bits,
                },
                ItemKind::Image { src } => ItemKindV::Image { src: src@ },
                ItemKind::Video { src, frame_rate, in_offset_frames, rate_bits } => ItemKindV::Video {
                    src: src@,
                    frame_rate: *frame_rate,
                    in_offset_frames: *in_offset_frames,
                    rate_bits: *rate_bits,
                },
                ItemKind::Solid { color } => ItemKindV::Solid { color: color@ },
                ItemKind::Text { text, color } => ItemKindV::Text { text: text@, color: color@ },
            },
        }
    }
}

/// The view of an optional item.
pub open spec fn opt_item_view(o: Option<Item>) -> Option<ItemV> {
    match o {
        Some(i) => Some(i@),
        None => None,
    }
}

/// A file extension of a still image, in any case.
pub open spec fn is_image_extension(ext: Option<Seq<char>>) -> bool {
    match ext {
        Some(e) => {
            ||| eq_ignore_case(e, "png"@)
            ||| eq_ignore_case(e, "jpg"@)
            ||| eq_ignore_case(e, "jpeg"@)
            ||| eq_ignore_case(e, "gif"@)
            ||| eq_ignore_case(e, "webp"@)
            ||| eq_ignore_case(e, "bmp"@)
            ||| eq_ignore_case(e, "tif"@)
            ||| eq_ignore_case(e, "tiff"@)
            ||| eq_ignore_case(e, "exr"@)
        },
        None => false,
    }
}

/// The string member `k` of a metadata value, or `default`.
pub open spec fn meta_str(m: Json, k: Seq<char>, default: Seq<char>) -> Seq<char> {
    match crate::json::member(m, k) {
        Some(Json::Str(s)) => s,
        _ => default,
    }
}

/// The frame rate a video item plays at: the timeline's, with a zero
/// denominator read as one.
pub open spec fn video_rate(fps: Fps) -> Fps {
    Fps { num: fps.num, den: if fps.den == 0 { 1 } else { fps.den } }
}

/// `item_from_node_impl`, given the extension of the clip's source path:
/// clips on audio tracks play as audio, other clips show as images (still
/// image extensions) or videos; `solid` and `text` generators become solid
/// and text items; anything else has no item.
pub open spec fn item_spec(node: TimelineNode, track_kind: TrackKind, fps: Fps, ext: Option<Seq<char>>) -> Option<ItemV> {
    match node.kind {
        TimelineNodeKind::Clip(clip) => {
            let src = match opt_string_view(clip.asset_id) {
                Some(s) => s,
                None => Seq::empty(),
            };
            let kind = if track_kind == TrackKind::Audio {
                ItemKindV::Audio {
                    src,
                    in_offset_frames: clip.media_range.start,
                    rate_bits: clip.playback_rate_bits,
                }
            } else if is_image_extension(ext) {
                ItemKindV::Image { src }
            } else {
                ItemKindV::Video {
                    src,
                    frame_rate: video_rate(fps),
                    in_offset_frames: clip.media_range.start,
                    rate_bits: clip.playback_rate_bits,
                }
            };
            Some(ItemV { id: node.id@, from: clip.timeline_range.start, duration_in_frames: clip.timeline_range.duration, kind })
        },
        TimelineNodeKind::Generator { generator_id, timeline_range, metadata } => {
            if generator_id@ == "solid"@ {
                Some(ItemV {
                    id: node.id@,
                    from: timeline_range.start,
                    duration_in_frames: timeline_range.duration,
                    kind: ItemKindV::Solid { color: meta_str(metadata@, "color"@, "#4c4c4c"@) },
                })
            } else if generator_id@ == "text"@ {
                Some(ItemV {
                    id: node.id@,
                    from: timeline_range.start,
                    duration_in_frames: timeline_range.duration,
                    kind: ItemKindV::Text {
                        text: meta_str(metadata@, "text"@, Seq::empty()),
                        color: meta_str(metadata@, "color"@, "#ffffff"@),
                    },
                })
            } else {
                None
            }
        },
    }
}

/// The index of the last `.` in `s`.
pub open spec fn last_dot(s: Seq<char>) -> Option<int>
    decreases s.len(),
{
    if s.len() == 0 {
        None
    } else if s.last() == '.' {
        Some(s.len() - 1)
    } else {
        last_dot(s.drop_last())
    }
}

/// A path that is one plain file name on every platform: no `/`, backslash or
/// `:`, and not `..`.
pub open spec fn plain_name(s: Seq<char>) -> bool {
    &&& forall|i: int| 0 <= i < s.len() ==> #[trigger] s[i] != '/' && s[i] != '\\' && s[i] != ':'
    &&& s != ".."@
}

/// The extension of a plain file name: the text after its last `.`, when
/// that `.` is not its first character; none otherwise.
pub open spec fn plain_extension(s: Seq<char>) -> Option<Seq<char>> {
    match last_dot(s) {
        Some(i) => if i > 0 {
            Some(s.subrange(i + 1, s.len() as int))
        } else {
            None
        },
        None => None,
    }
}

/// What holds of a path's extension on every platform: none, or text that
/// follows a `.` in the path and holds no `.` or `/`; and for a plain file
/// name, exactly `plain_extension`.
pub open spec fn possible_extension(path: Seq<char>, ext: Option<Seq<char>>) -> bool {
    &&& ext matches Some(e) ==> (exists|i: int|
        0 <= i && i + 1 + e.len() <= path.len() && path[i] == '.' && #[trigger] path.subrange(i + 1, i + 1 + e.len())
            == e)
    &&& ext matches Some(e) ==> (forall|k: int| 0 <= k < e.len() ==> #[trigger] e[k] != '.' && e[k] != '/')
    &&& plain_name(path) ==> ext == plain_extension(path)
}

/// `Path::new(path).extension()` as text. The extension is a slice of the
/// path's last file name after its final `.` (when that `.` does not start
/// the name), so it follows a `.` in the path and holds no `.` or `/`; for a
/// path that is a plain file name on every platform it is exactly
/// `plain_extension`. What a separator or a prefix is otherwise depends on
/// the platform, and is left unsaid.
#[verifier::external_body]
pub(crate) fn path_extension(path: &str) -> (r: Option<String>)
    ensures
        possible_extension(path@, match r {
            Some(e) => Some(e@),
            None => None,
        }),
{
    std::path::Path::new(path).extension().and_then(|e| e.to_str()).map(|s| s.to_string())
}

/// A still-image extension, in any case.
fn is_image_extension_exec(ext: Option<&str>) -> (r: bool)
    ensures
        r == is_image_extension(crate::input_spec::opt_str_view(ext)),
{
    match ext {
        Some(e) => {
            let c = chars_of(e);
            let s = c.as_slice();
            eq_ignore_case_lit(s, "png") || eq_ignore_case_lit(s, "jpg") || eq_ignore_case_lit(s, "jpeg")
                || eq_ignore_case_lit(s, "gif") || eq_ignore_case_lit(s, "webp") || eq_ignore_case_lit(s, "bmp")
                || eq_ignore_case_lit(s, "tif") || eq_ignore_case_lit(s, "tiff") || eq_ignore_case_lit(s, "exr")
        },
        None => false,
    }
}

/// The string member `k` of a metadata value, or `default`.
fn meta_str_exec(m: &JsonValue, k: &str, default: &str) -> (r: String)
    ensures
        r@ == meta_str(m@, k@, default@),
{
    if let JsonValue::Object(e) = m {
        if let Some(JsonValue::String(s)) = obj_get(e, k) {
            return s.clone();
        }
    }
    String::from_str(default)
}

/// The playable item of a node, given the extension of a clip's source
/// path.
pub fn item_from_node_with_extension(node: &TimelineNode, track_kind: TrackKind, fps: Fps, ext: Option<&str>) -> (r: Option<Item>)
    ensures
        opt_item_view(r) == item_spec(*node, track_kind, fps, crate::input_spec::opt_str_view(ext)),
{
    let id = node.id.clone();
    match &node.kind {
        TimelineNodeKind::Clip(clip) => {
            let src = match &clip.asset_id {
                Some(s) => s.clone(),
                None => String::new(),
            };
            let kind = if track_kind == TrackKind::Audio {
                ItemKind::Audio {
                    src,
                    in_offset_frames: clip.media_range.start,
                    rate_bits: clip.playback_rate_bits,
                }
            } else if is_image_extension_exec(ext) {
                ItemKind::Image { src }
            } else {
                let den = if fps.den == 0 {
                    1
                } else {
                    fps.den
                };
                ItemKind::Video {
                    src,
                    frame_rate: Fps { num: fps.num, den },
                    in_offset_frames: clip.media_range.start,
                    rate_bits: clip.playback_rate_bits,
                }
            };
            let it = Item { id, from: clip.timeline_range.start, duration_in_frames: clip.timeline_range.duration, kind };
            Some(it)
        },
        TimelineNodeKind::Generator { generator_id, timeline_range, metadata } => {
            let g = chars_of(generator_id.as_str());
            if eq_lit(g.as_slice(), "solid") {
                let color = meta_str_exec(metadata, "color", "#4c4c4c");
                let it = Item {
                    id,
                    from: timeline_range.start,
                    duration_in_frames: timeline_range.duration,
                    kind: ItemKind::Solid { color },
                };
                Some(it)
            } else if eq_lit(g.as_slice(), "text") {
                let text = meta_str_exec(metadata, "text", "");
                proof {
                    reveal_strlit("");
                    assert(""@ =~= Seq::<char>::empty());
                }
                let color = meta_str_exec(metadata, "color", "#ffffff");
                let it = Item {
                    id,
                    from: timeline_range.start,
                    duration_in_frames: timeline_range.duration,
                    kind: ItemKind::Text { text, color },
                };
                Some(it)
            } else {
                None
            }
        },
    }
}

/// The source path of a clip node (empty without one); none for other
/// nodes.
pub open spec fn clip_path(node: TimelineNode) -> Option<Seq<char>> {
    match node.kind {
        TimelineNodeKind::Clip(c) => Some(
            match c.asset_id {
                Some(s) => s@,
                None => Seq::empty(),
            },
        ),
        _ => None,
    }
}

/// The playable item of a node on a track of kind `track_kind`. Whether a
/// clip shows as an image depends on its path's extension as the platform
/// reads it (see `possible_extension`); on a plain file name that is the
/// text after its last `.`.
pub fn item_from_node_impl(node: &TimelineNode, track_kind: TrackKind, fps: Fps) -> (r: Option<Item>)
    ensures
        exists|ext: Option<Seq<char>>| {
            &&& opt_item_view(r) == #[trigger] item_spec(*node, track_kind, fps, ext)
            &&& match clip_path(*node) {
                Some(p) => possible_extension(p, ext),
                None => ext is None,
            }
        },
{
    let ext = match &node.kind {
        TimelineNodeKind::Clip(clip) => match &clip.asset_id {
            Some(s) => path_extension(s.as_str()),
            None => {
                proof {
                    reveal_strlit("");
                    assert(""@ =~= Seq::<char>::empty());
                }
                path_extension("")
            },
        },
        _ => None,
    };
    let r = match &ext {
        Some(e) => item_from_node_with_extension(node, track_kind, fps, Some(e.as_str())),
        None => item_from_node_with_extension(node, track_kind, fps, None),
    };
    proof {
        let w = match ext {
            Some(e) => Some(e@),
            None => None::<Seq<char>>,
        };
        assert(opt_item_view(r) == item_spec(*node, track_kind, fps, w));
        assert(match clip_path(*node) {
            Some(p) => possible_extension(p, w),
            None => w is None,
        });
    }
    r
}


/// A track of the kind wanted: an audio track, or any other.
pub open spec fn wanted_track(k: TrackKind, audio: bool) -> bool {
    if audio {
        k == TrackKind::Audio
    } else {
        k != TrackKind::Audio
    }
}

/// How far track `i` is from track `p`.
pub open spec fn track_distance(i: int, p: int) -> int {
    if i >= p {
        i - p
    } else {
        p - i
    }
}

/// The wanted track nearest to `pref` (the first of equally near ones).
pub open spec fn nearest_track(kinds: Seq<TrackKind>, pref: int, audio: bool) -> Option<int>
    decreases kinds.len(),
{
    if kinds.len() == 0 {
        None
    } else {
        let before = nearest_track(kinds.drop_last(), pref, audio);
        let i = kinds.len() - 1;
        if !wanted_track(kinds.last(), audio) {
            before
        } else {
            match before {
                None => Some(i),
                Some(j) => if track_distance(i, pref) < track_distance(j, pref) {
                    Some(i)
                } else {
                    Some(j)
                },
            }
        }
    }
}

/// The preferred track, or the first.
pub open spec fn preferred_index(preferred: Option<usize>) -> int {
    match preferred {
        Some(p) => p as int,
        None => 0,
    }
}

/// The wanted track nearest the preferred one (see `nearest_track`).
pub fn nearest_track_by_kind(kinds: &Vec<TrackKind>, preferred: Option<usize>, audio: bool) -> (r: Option<usize>)
    requires
        preferred matches Some(p) ==> p <= isize::MAX,
    ensures
        match r {
            Some(i) => nearest_track(kinds@, preferred_index(preferred), audio) == Some(i as int),
            None => nearest_track(kinds@, preferred_index(preferred), audio) is None,
        },
{
    let pref: usize = match preferred {
        Some(p) => p,
        None => 0,
    };
    let mut best: Option<usize> = None;
    let mut best_distance: usize = 0;
    let mut i: usize = 0;
    while i < kinds.len()
        invariant
            i <= kinds@.len(),
            pref as int == preferred_index(preferred),
            match best {
                Some(b) => nearest_track(kinds@.subrange(0, i as int), pref as int, audio) == Some(b as int) && best_distance
                    == track_distance(b as int, pref as int),
                None => nearest_track(kinds@.subrange(0, i as int), pref as int, audio) is None,
            },
        decreases kinds@.len() - i,
    {
        let ghost pre = kinds@.subrange(0, i + 1);
        assert(pre.drop_last() =~= kinds@.subrange(0, i as int));
        let k = kinds[i];
        let want = if audio {
            k == TrackKind::Audio
        } else {
            k != TrackKind::Audio
        };
        if want {
            let d: usize = if i >= pref {
                i - pref
            } else {
                pref - i
            };
            match best {
                None => {
                    best = Some(i);
                    best_distance = d;
                },
                Some(_) => {
                    if d < best_distance {
                        best = Some(i);
                        best_distance = d;
                    }
                },
            }
        }
        i = i + 1;
    }
    assert(kinds@.subrange(0, i as int) =~= kinds@);
    best
}

/// The tracks an asset goes on: an audio asset on the audio track nearest
/// the preferred one (else the preferred track, if there is one); any other
/// asset on the nearest non-audio track (else the first track), and, when
/// it has sound, also on the nearest audio track unless that is the same
/// track (by id).
pub open spec fn target_tracks(kinds: Seq<TrackKind>, ids: Seq<u128>, asset_is_audio: bool, has_audio: bool, preferred: Option<usize>) -> Seq<usize> {
    let p = preferred_index(preferred);
    if asset_is_audio {
        match nearest_track(kinds, p, true) {
            Some(a) => seq![a as usize],
            None => match preferred {
                Some(x) => if x < kinds.len() {
                    seq![x]
                } else {
                    Seq::empty()
                },
                None => Seq::empty(),
            },
        }
    } else {
        let v = match nearest_track(kinds, p, false) {
            Some(i) => Some(i),
            None => if kinds.len() > 0 {
                Some(0int)
            } else {
                None
            },
        };
        let vs = match v {
            Some(i) => seq![i as usize],
            None => Seq::empty(),
        };
        if has_audio {
            match nearest_track(kinds, p, true) {
                Some(a) => if v matches Some(i) && ids[i] == ids[a] {
                    vs
                } else {
                    vs.push(a as usize)
                },
                None => vs,
            }
        } else {
            vs
        }
    }
}

/// `collect_target_tracks`: the indices of the tracks an asset goes on
/// (see `target_tracks`), given the tracks' kinds and ids, whether the asset
/// is audio, and whether it has sound.
pub fn collect_target_tracks(
    kinds: &Vec<TrackKind>,
    ids: &Vec<u128>,
    asset_is_audio: bool,
    has_audio: bool,
    preferred: Option<usize>,
) -> (r: Vec<usize>)
    requires
        ids@.len() == kinds@.len(),
        preferred matches Some(p) ==> p <= isize::MAX,
    ensures
        r@ == target_tracks(kinds@, ids@, asset_is_audio, has_audio, preferred),
{
    let mut out: Vec<usize> = Vec::new();
    proof {
        lemma_nearest_in_range(kinds@, preferred_index(preferred), true);
        lemma_nearest_in_range(kinds@, preferred_index(preferred), false);
    }
    if asset_is_audio {
        match nearest_track_by_kind(kinds, preferred, true) {
            Some(a) => out.push(a),
            None => {
                if let Some(x) = preferred {
                    if x < kinds.len() {
                        out.push(x);
                    }
                }
            },
        }
        assert(out@ =~= target_tracks(kinds@, ids@, asset_is_audio, has_audio, preferred));
        return out;
    }
    let video = match nearest_track_by_kind(kinds, preferred, false) {
        Some(i) => Some(i),
        None => if kinds.len() > 0 {
            Some(0usize)
        } else {
            None
        },
    };
    if let Some(v) = video {
        out.push(v);
    }
    if has_audio {
        if let Some(a) = nearest_track_by_kind(kinds, preferred, true) {
            let same = match video {
                Some(v) => ids[v] == ids[a],
                None => false,
            };
            if !same {
                out.push(a);
            }
        }
    }
    assert(out@ =~= target_tracks(kinds@, ids@, asset_is_audio, has_audio, preferred));
    out
}

/// The nearest track is a track.
proof fn lemma_nearest_in_range(kinds: Seq<TrackKind>, pref: int, audio: bool)
    ensures
        nearest_track(kinds, pref, audio) matches Some(i) ==> 0 <= i < kinds.len(),
    decreases kinds.len(),
{
    if kinds.len() > 0 {
        lemma_nearest_in_range(kinds.drop_last(), pref, audio);
    }
}

} // verus!
